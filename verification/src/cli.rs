//! The command line: which command the arguments name, how each command's arguments are
//! checked, and the summaries that commands print.
use vstd::prelude::*;

use crate::sync::RomSyncReport;
use crate::text::{
    append_str, chars_eq_ignore_ascii_case, chars_of, decimal_string, eq_ignore_ascii_case_seq,
    push_decimal, string_of, to_uppercase, trim_seq, trim_str, unicode_uppercase,
};
use crate::types::{all_discover_runners, DiscoverRunner, EmulatorDiscoverReport};
use crate::usage::{
    full_usage, full_usage_lines, usage_discover, usage_settings, usage_settings_get, usage_settings_set, usage_sync_down,
    usage_sync_up, settings_usage_lines,
};

verus! {

broadcast use vstd::string::group_string_axioms;

/// A command of the command line.
#[derive(Clone, Copy, PartialEq, Eq, Structural, Debug)]
pub enum CliCommand {
    Help,
    Add,
    Remove,
    RemoveAll,
    List,
    Discover,
    InstallMattmc,
    Launch,
    BackupMattmc,
    SyncMattmc,
    AddToPlaylist,
    RemoveFromPlaylist,
    InstallCore,
    CoreStatus,
    InstallEmulators,
    SyncUp,
    SyncDown,
    SyncSavesUp,
    SyncSavesDown,
    Settings,
    RefreshMetadata,
}

/// The command that a first argument names, if any.
pub open spec fn command_named(word: Seq<char>) -> Option<CliCommand> {
    if word == "help"@ || word == "-h"@ || word == "--help"@ {
        Some(CliCommand::Help)
    } else if word == "add"@ {
        Some(CliCommand::Add)
    } else if word == "remove"@ {
        Some(CliCommand::Remove)
    } else if word == "remove-all"@ {
        Some(CliCommand::RemoveAll)
    } else if word == "list"@ {
        Some(CliCommand::List)
    } else if word == "discover"@ {
        Some(CliCommand::Discover)
    } else if word == "install-mattmc"@ {
        Some(CliCommand::InstallMattmc)
    } else if word == "launch"@ {
        Some(CliCommand::Launch)
    } else if word == "backup-mattmc"@ {
        Some(CliCommand::BackupMattmc)
    } else if word == "sync-mattmc"@ {
        Some(CliCommand::SyncMattmc)
    } else if word == "add-to-playlist"@ {
        Some(CliCommand::AddToPlaylist)
    } else if word == "remove-from-playlist"@ {
        Some(CliCommand::RemoveFromPlaylist)
    } else if word == "install-core"@ {
        Some(CliCommand::InstallCore)
    } else if word == "core-status"@ {
        Some(CliCommand::CoreStatus)
    } else if word == "install-emulators"@ {
        Some(CliCommand::InstallEmulators)
    } else if word == "sync-up"@ {
        Some(CliCommand::SyncUp)
    } else if word == "sync-down"@ {
        Some(CliCommand::SyncDown)
    } else if word == "sync-saves-up"@ {
        Some(CliCommand::SyncSavesUp)
    } else if word == "sync-saves-down"@ {
        Some(CliCommand::SyncSavesDown)
    } else if word == "settings"@ {
        Some(CliCommand::Settings)
    } else if word == "refresh-metadata"@ {
        Some(CliCommand::RefreshMetadata)
    } else {
        None
    }
}


/// The word of the command line that names a command, as the usage text writes it
/// after `basalt`.
pub open spec fn command_word(c: CliCommand) -> Seq<char> {
    match c {
        CliCommand::Help => "help"@,
        CliCommand::Add => "add"@,
        CliCommand::Remove => "remove"@,
        CliCommand::RemoveAll => "remove-all"@,
        CliCommand::List => "list"@,
        CliCommand::Discover => "discover"@,
        CliCommand::InstallMattmc => "install-mattmc"@,
        CliCommand::Launch => "launch"@,
        CliCommand::BackupMattmc => "backup-mattmc"@,
        CliCommand::SyncMattmc => "sync-mattmc"@,
        CliCommand::AddToPlaylist => "add-to-playlist"@,
        CliCommand::RemoveFromPlaylist => "remove-from-playlist"@,
        CliCommand::InstallCore => "install-core"@,
        CliCommand::CoreStatus => "core-status"@,
        CliCommand::InstallEmulators => "install-emulators"@,
        CliCommand::SyncUp => "sync-up"@,
        CliCommand::SyncDown => "sync-down"@,
        CliCommand::SyncSavesUp => "sync-saves-up"@,
        CliCommand::SyncSavesDown => "sync-saves-down"@,
        CliCommand::Settings => "settings"@,
        CliCommand::RefreshMetadata => "refresh-metadata"@,
    }
}

/// Each command is named by its own word, and by no other word but the two other forms
/// of `help`: reading a command's word gives that command back, and a word that names a
/// command is that command's word. So distinct words name distinct commands.
pub proof fn lemma_each_word_names_its_command(word: Seq<char>, c: CliCommand)
    ensures
        command_named(command_word(c)) == Some(c),
        command_named(word) == Some(c) ==> word == command_word(c) || (c == CliCommand::Help
            && (word == "-h"@ || word == "--help"@)),
{
    reveal_strlit("help");
    reveal_strlit("add");
    reveal_strlit("remove");
    reveal_strlit("remove-all");
    reveal_strlit("list");
    reveal_strlit("discover");
    reveal_strlit("install-mattmc");
    reveal_strlit("launch");
    reveal_strlit("backup-mattmc");
    reveal_strlit("sync-mattmc");
    reveal_strlit("add-to-playlist");
    reveal_strlit("remove-from-playlist");
    reveal_strlit("install-core");
    reveal_strlit("core-status");
    reveal_strlit("install-emulators");
    reveal_strlit("sync-up");
    reveal_strlit("sync-down");
    reveal_strlit("sync-saves-up");
    reveal_strlit("sync-saves-down");
    reveal_strlit("settings");
    reveal_strlit("refresh-metadata");
    reveal_strlit("-h");
    reveal_strlit("--help");
    match c {
        CliCommand::Help => {

        },
        CliCommand::Add => {
            assert("add"@.len() != "help"@.len());
            assert("add"@.len() != "-h"@.len());
            assert("add"@.len() != "--help"@.len());
        },
        CliCommand::Remove => {
            assert("remove"@.len() != "help"@.len());
            assert("remove"@.len() != "-h"@.len());
            assert("remove"@[0] != "--help"@[0]);
            assert("remove"@.len() != "add"@.len());
        },
        CliCommand::RemoveAll => {
            assert("remove-all"@.len() != "help"@.len());
            assert("remove-all"@.len() != "-h"@.len());
            assert("remove-all"@.len() != "--help"@.len());
            assert("remove-all"@.len() != "add"@.len());
            assert("remove-all"@.len() != "remove"@.len());
        },
        CliCommand::List => {
            assert("list"@[0] != "help"@[0]);
            assert("list"@.len() != "-h"@.len());
            assert("list"@.len() != "--help"@.len());
            assert("list"@.len() != "add"@.len());
            assert("list"@.len() != "remove"@.len());
            assert("list"@.len() != "remove-all"@.len());
        },
        CliCommand::Discover => {
            assert("discover"@.len() != "help"@.len());
            assert("discover"@.len() != "-h"@.len());
            assert("discover"@.len() != "--help"@.len());
            assert("discover"@.len() != "add"@.len());
            assert("discover"@.len() != "remove"@.len());
            assert("discover"@.len() != "remove-all"@.len());
            assert("discover"@.len() != "list"@.len());
        },
        CliCommand::InstallMattmc => {
            assert("install-mattmc"@.len() != "help"@.len());
            assert("install-mattmc"@.len() != "-h"@.len());
            assert("install-mattmc"@.len() != "--help"@.len());
            assert("install-mattmc"@.len() != "add"@.len());
            assert("install-mattmc"@.len() != "remove"@.len());
            assert("install-mattmc"@.len() != "remove-all"@.len());
            assert("install-mattmc"@.len() != "list"@.len());
            assert("install-mattmc"@.len() != "discover"@.len());
        },
        CliCommand::Launch => {
            assert("launch"@.len() != "help"@.len());
            assert("launch"@.len() != "-h"@.len());
            assert("launch"@[0] != "--help"@[0]);
            assert("launch"@.len() != "add"@.len());
            assert("launch"@[0] != "remove"@[0]);
            assert("launch"@.len() != "remove-all"@.len());
            assert("launch"@.len() != "list"@.len());
            assert("launch"@.len() != "discover"@.len());
            assert("launch"@.len() != "install-mattmc"@.len());
        },
        CliCommand::BackupMattmc => {
            assert("backup-mattmc"@.len() != "help"@.len());
            assert("backup-mattmc"@.len() != "-h"@.len());
            assert("backup-mattmc"@.len() != "--help"@.len());
            assert("backup-mattmc"@.len() != "add"@.len());
            assert("backup-mattmc"@.len() != "remove"@.len());
            assert("backup-mattmc"@.len() != "remove-all"@.len());
            assert("backup-mattmc"@.len() != "list"@.len());
            assert("backup-mattmc"@.len() != "discover"@.len());
            assert("backup-mattmc"@.len() != "install-mattmc"@.len());
            assert("backup-mattmc"@.len() != "launch"@.len());
        },
        CliCommand::SyncMattmc => {
            assert("sync-mattmc"@.len() != "help"@.len());
            assert("sync-mattmc"@.len() != "-h"@.len());
            assert("sync-mattmc"@.len() != "--help"@.len());
            assert("sync-mattmc"@.len() != "add"@.len());
            assert("sync-mattmc"@.len() != "remove"@.len());
            assert("sync-mattmc"@.len() != "remove-all"@.len());
            assert("sync-mattmc"@.len() != "list"@.len());
            assert("sync-mattmc"@.len() != "discover"@.len());
            assert("sync-mattmc"@.len() != "install-mattmc"@.len());
            assert("sync-mattmc"@.len() != "launch"@.len());
            assert("sync-mattmc"@.len() != "backup-mattmc"@.len());
        },
        CliCommand::AddToPlaylist => {
            assert("add-to-playlist"@.len() != "help"@.len());
            assert("add-to-playlist"@.len() != "-h"@.len());
            assert("add-to-playlist"@.len() != "--help"@.len());
            assert("add-to-playlist"@.len() != "add"@.len());
            assert("add-to-playlist"@.len() != "remove"@.len());
            assert("add-to-playlist"@.len() != "remove-all"@.len());
            assert("add-to-playlist"@.len() != "list"@.len());
            assert("add-to-playlist"@.len() != "discover"@.len());
            assert("add-to-playlist"@.len() != "install-mattmc"@.len());
            assert("add-to-playlist"@.len() != "launch"@.len());
            assert("add-to-playlist"@.len() != "backup-mattmc"@.len());
            assert("add-to-playlist"@.len() != "sync-mattmc"@.len());
        },
        CliCommand::RemoveFromPlaylist => {
            assert("remove-from-playlist"@.len() != "help"@.len());
            assert("remove-from-playlist"@.len() != "-h"@.len());
            assert("remove-from-playlist"@.len() != "--help"@.len());
            assert("remove-from-playlist"@.len() != "add"@.len());
            assert("remove-from-playlist"@.len() != "remove"@.len());
            assert("remove-from-playlist"@.len() != "remove-all"@.len());
            assert("remove-from-playlist"@.len() != "list"@.len());
            assert("remove-from-playlist"@.len() != "discover"@.len());
            assert("remove-from-playlist"@.len() != "install-mattmc"@.len());
            assert("remove-from-playlist"@.len() != "launch"@.len());
            assert("remove-from-playlist"@.len() != "backup-mattmc"@.len());
            assert("remove-from-playlist"@.len() != "sync-mattmc"@.len());
            assert("remove-from-playlist"@.len() != "add-to-playlist"@.len());
        },
        CliCommand::InstallCore => {
            assert("install-core"@.len() != "help"@.len());
            assert("install-core"@.len() != "-h"@.len());
            assert("install-core"@.len() != "--help"@.len());
            assert("install-core"@.len() != "add"@.len());
            assert("install-core"@.len() != "remove"@.len());
            assert("install-core"@.len() != "remove-all"@.len());
            assert("install-core"@.len() != "list"@.len());
            assert("install-core"@.len() != "discover"@.len());
            assert("install-core"@.len() != "install-mattmc"@.len());
            assert("install-core"@.len() != "launch"@.len());
            assert("install-core"@.len() != "backup-mattmc"@.len());
            assert("install-core"@.len() != "sync-mattmc"@.len());
            assert("install-core"@.len() != "add-to-playlist"@.len());
            assert("install-core"@.len() != "remove-from-playlist"@.len());
        },
        CliCommand::CoreStatus => {
            assert("core-status"@.len() != "help"@.len());
            assert("core-status"@.len() != "-h"@.len());
            assert("core-status"@.len() != "--help"@.len());
            assert("core-status"@.len() != "add"@.len());
            assert("core-status"@.len() != "remove"@.len());
            assert("core-status"@.len() != "remove-all"@.len());
            assert("core-status"@.len() != "list"@.len());
            assert("core-status"@.len() != "discover"@.len());
            assert("core-status"@.len() != "install-mattmc"@.len());
            assert("core-status"@.len() != "launch"@.len());
            assert("core-status"@.len() != "backup-mattmc"@.len());
            assert("core-status"@[0] != "sync-mattmc"@[0]);
            assert("core-status"@.len() != "add-to-playlist"@.len());
            assert("core-status"@.len() != "remove-from-playlist"@.len());
            assert("core-status"@.len() != "install-core"@.len());
        },
        CliCommand::InstallEmulators => {
            assert("install-emulators"@.len() != "help"@.len());
            assert("install-emulators"@.len() != "-h"@.len());
            assert("install-emulators"@.len() != "--help"@.len());
            assert("install-emulators"@.len() != "add"@.len());
            assert("install-emulators"@.len() != "remove"@.len());
            assert("install-emulators"@.len() != "remove-all"@.len());
            assert("install-emulators"@.len() != "list"@.len());
            assert("install-emulators"@.len() != "discover"@.len());
            assert("install-emulators"@.len() != "install-mattmc"@.len());
            assert("install-emulators"@.len() != "launch"@.len());
            assert("install-emulators"@.len() != "backup-mattmc"@.len());
            assert("install-emulators"@.len() != "sync-mattmc"@.len());
            assert("install-emulators"@.len() != "add-to-playlist"@.len());
            assert("install-emulators"@.len() != "remove-from-playlist"@.len());
            assert("install-emulators"@.len() != "install-core"@.len());
            assert("install-emulators"@.len() != "core-status"@.len());
        },
        CliCommand::SyncUp => {
            assert("sync-up"@.len() != "help"@.len());
            assert("sync-up"@.len() != "-h"@.len());
            assert("sync-up"@.len() != "--help"@.len());
            assert("sync-up"@.len() != "add"@.len());
            assert("sync-up"@.len() != "remove"@.len());
            assert("sync-up"@.len() != "remove-all"@.len());
            assert("sync-up"@.len() != "list"@.len());
            assert("sync-up"@.len() != "discover"@.len());
            assert("sync-up"@.len() != "install-mattmc"@.len());
            assert("sync-up"@.len() != "launch"@.len());
            assert("sync-up"@.len() != "backup-mattmc"@.len());
            assert("sync-up"@.len() != "sync-mattmc"@.len());
            assert("sync-up"@.len() != "add-to-playlist"@.len());
            assert("sync-up"@.len() != "remove-from-playlist"@.len());
            assert("sync-up"@.len() != "install-core"@.len());
            assert("sync-up"@.len() != "core-status"@.len());
            assert("sync-up"@.len() != "install-emulators"@.len());
        },
        CliCommand::SyncDown => {
            assert("sync-down"@.len() != "help"@.len());
            assert("sync-down"@.len() != "-h"@.len());
            assert("sync-down"@.len() != "--help"@.len());
            assert("sync-down"@.len() != "add"@.len());
            assert("sync-down"@.len() != "remove"@.len());
            assert("sync-down"@.len() != "remove-all"@.len());
            assert("sync-down"@.len() != "list"@.len());
            assert("sync-down"@.len() != "discover"@.len());
            assert("sync-down"@.len() != "install-mattmc"@.len());
            assert("sync-down"@.len() != "launch"@.len());
            assert("sync-down"@.len() != "backup-mattmc"@.len());
            assert("sync-down"@.len() != "sync-mattmc"@.len());
            assert("sync-down"@.len() != "add-to-playlist"@.len());
            assert("sync-down"@.len() != "remove-from-playlist"@.len());
            assert("sync-down"@.len() != "install-core"@.len());
            assert("sync-down"@.len() != "core-status"@.len());
            assert("sync-down"@.len() != "install-emulators"@.len());
            assert("sync-down"@.len() != "sync-up"@.len());
        },
        CliCommand::SyncSavesUp => {
            assert("sync-saves-up"@.len() != "help"@.len());
            assert("sync-saves-up"@.len() != "-h"@.len());
            assert("sync-saves-up"@.len() != "--help"@.len());
            assert("sync-saves-up"@.len() != "add"@.len());
            assert("sync-saves-up"@.len() != "remove"@.len());
            assert("sync-saves-up"@.len() != "remove-all"@.len());
            assert("sync-saves-up"@.len() != "list"@.len());
            assert("sync-saves-up"@.len() != "discover"@.len());
            assert("sync-saves-up"@.len() != "install-mattmc"@.len());
            assert("sync-saves-up"@.len() != "launch"@.len());
            assert("sync-saves-up"@[0] != "backup-mattmc"@[0]);
            assert("sync-saves-up"@.len() != "sync-mattmc"@.len());
            assert("sync-saves-up"@.len() != "add-to-playlist"@.len());
            assert("sync-saves-up"@.len() != "remove-from-playlist"@.len());
            assert("sync-saves-up"@.len() != "install-core"@.len());
            assert("sync-saves-up"@.len() != "core-status"@.len());
            assert("sync-saves-up"@.len() != "install-emulators"@.len());
            assert("sync-saves-up"@.len() != "sync-up"@.len());
            assert("sync-saves-up"@.len() != "sync-down"@.len());
        },
        CliCommand::SyncSavesDown => {
            assert("sync-saves-down"@.len() != "help"@.len());
            assert("sync-saves-down"@.len() != "-h"@.len());
            assert("sync-saves-down"@.len() != "--help"@.len());
            assert("sync-saves-down"@.len() != "add"@.len());
            assert("sync-saves-down"@.len() != "remove"@.len());
            assert("sync-saves-down"@.len() != "remove-all"@.len());
            assert("sync-saves-down"@.len() != "list"@.len());
            assert("sync-saves-down"@.len() != "discover"@.len());
            assert("sync-saves-down"@.len() != "install-mattmc"@.len());
            assert("sync-saves-down"@.len() != "launch"@.len());
            assert("sync-saves-down"@.len() != "backup-mattmc"@.len());
            assert("sync-saves-down"@.len() != "sync-mattmc"@.len());
            assert("sync-saves-down"@[0] != "add-to-playlist"@[0]);
            assert("sync-saves-down"@.len() != "remove-from-playlist"@.len());
            assert("sync-saves-down"@.len() != "install-core"@.len());
            assert("sync-saves-down"@.len() != "core-status"@.len());
            assert("sync-saves-down"@.len() != "install-emulators"@.len());
            assert("sync-saves-down"@.len() != "sync-up"@.len());
            assert("sync-saves-down"@.len() != "sync-down"@.len());
            assert("sync-saves-down"@.len() != "sync-saves-up"@.len());
        },
        CliCommand::Settings => {
            assert("settings"@.len() != "help"@.len());
            assert("settings"@.len() != "-h"@.len());
            assert("settings"@.len() != "--help"@.len());
            assert("settings"@.len() != "add"@.len());
            assert("settings"@.len() != "remove"@.len());
            assert("settings"@.len() != "remove-all"@.len());
            assert("settings"@.len() != "list"@.len());
            assert("settings"@[0] != "discover"@[0]);
            assert("settings"@.len() != "install-mattmc"@.len());
            assert("settings"@.len() != "launch"@.len());
            assert("settings"@.len() != "backup-mattmc"@.len());
            assert("settings"@.len() != "sync-mattmc"@.len());
            assert("settings"@.len() != "add-to-playlist"@.len());
            assert("settings"@.len() != "remove-from-playlist"@.len());
            assert("settings"@.len() != "install-core"@.len());
            assert("settings"@.len() != "core-status"@.len());
            assert("settings"@.len() != "install-emulators"@.len());
            assert("settings"@.len() != "sync-up"@.len());
            assert("settings"@.len() != "sync-down"@.len());
            assert("settings"@.len() != "sync-saves-up"@.len());
            assert("settings"@.len() != "sync-saves-down"@.len());
        },
        CliCommand::RefreshMetadata => {
            assert("refresh-metadata"@.len() != "help"@.len());
            assert("refresh-metadata"@.len() != "-h"@.len());
            assert("refresh-metadata"@.len() != "--help"@.len());
            assert("refresh-metadata"@.len() != "add"@.len());
            assert("refresh-metadata"@.len() != "remove"@.len());
            assert("refresh-metadata"@.len() != "remove-all"@.len());
            assert("refresh-metadata"@.len() != "list"@.len());
            assert("refresh-metadata"@.len() != "discover"@.len());
            assert("refresh-metadata"@.len() != "install-mattmc"@.len());
            assert("refresh-metadata"@.len() != "launch"@.len());
            assert("refresh-metadata"@.len() != "backup-mattmc"@.len());
            assert("refresh-metadata"@.len() != "sync-mattmc"@.len());
            assert("refresh-metadata"@.len() != "add-to-playlist"@.len());
            assert("refresh-metadata"@.len() != "remove-from-playlist"@.len());
            assert("refresh-metadata"@.len() != "install-core"@.len());
            assert("refresh-metadata"@.len() != "core-status"@.len());
            assert("refresh-metadata"@.len() != "install-emulators"@.len());
            assert("refresh-metadata"@.len() != "sync-up"@.len());
            assert("refresh-metadata"@.len() != "sync-down"@.len());
            assert("refresh-metadata"@.len() != "sync-saves-up"@.len());
            assert("refresh-metadata"@.len() != "sync-saves-down"@.len());
            assert("refresh-metadata"@.len() != "settings"@.len());
        },
    }
}

/// Every command's word begins a line of the full usage text, after `  basalt `.
pub proof fn lemma_command_words_are_documented(c: CliCommand)
    ensures
        exists|i: int|
            0 <= i < full_usage_lines().len() && crate::text::starts_with_seq(
                #[trigger] full_usage_lines()[i],
                "  basalt "@ + command_word(c),
            ),
{
    reveal_strlit("help");
    reveal_strlit("add");
    reveal_strlit("remove");
    reveal_strlit("remove-all");
    reveal_strlit("list");
    reveal_strlit("discover");
    reveal_strlit("install-mattmc");
    reveal_strlit("launch");
    reveal_strlit("backup-mattmc");
    reveal_strlit("sync-mattmc");
    reveal_strlit("add-to-playlist");
    reveal_strlit("remove-from-playlist");
    reveal_strlit("install-core");
    reveal_strlit("core-status");
    reveal_strlit("install-emulators");
    reveal_strlit("sync-up");
    reveal_strlit("sync-down");
    reveal_strlit("sync-saves-up");
    reveal_strlit("sync-saves-down");
    reveal_strlit("settings");
    reveal_strlit("refresh-metadata");
    reveal_strlit("-h");
    reveal_strlit("--help");
    reveal_strlit("  basalt ");
    match c {
        CliCommand::Help => {
            reveal_strlit("  basalt help                   Show this help message");
            let l = full_usage_lines()[3];
            assert(l == "  basalt help                   Show this help message"@);
            assert(l.take(("  basalt "@ + command_word(c)).len() as int) =~= "  basalt "@ + command_word(c));
        },
        CliCommand::Add => {
            reveal_strlit("  basalt add <name> <target>");
            let l = full_usage_lines()[5];
            assert(l == "  basalt add <name> <target>"@);
            assert(l.take(("  basalt "@ + command_word(c)).len() as int) =~= "  basalt "@ + command_word(c));
        },
        CliCommand::Remove => {
            reveal_strlit("  basalt remove <name>");
            let l = full_usage_lines()[7];
            assert(l == "  basalt remove <name>"@);
            assert(l.take(("  basalt "@ + command_word(c)).len() as int) =~= "  basalt "@ + command_word(c));
        },
        CliCommand::RemoveAll => {
            reveal_strlit("  basalt remove-all");
            let l = full_usage_lines()[13];
            assert(l == "  basalt remove-all"@);
            assert(l.take(("  basalt "@ + command_word(c)).len() as int) =~= "  basalt "@ + command_word(c));
        },
        CliCommand::List => {
            reveal_strlit("  basalt list");
            let l = full_usage_lines()[15];
            assert(l == "  basalt list"@);
            assert(l.take(("  basalt "@ + command_word(c)).len() as int) =~= "  basalt "@ + command_word(c));
        },
        CliCommand::Discover => {
            reveal_strlit("  basalt discover [--steam] [--mattmc] [--emulators]");
            let l = full_usage_lines()[17];
            assert(l == "  basalt discover [--steam] [--mattmc] [--emulators]"@);
            assert(l.take(("  basalt "@ + command_word(c)).len() as int) =~= "  basalt "@ + command_word(c));
        },
        CliCommand::InstallMattmc => {
            reveal_strlit("  basalt install-mattmc");
            let l = full_usage_lines()[28];
            assert(l == "  basalt install-mattmc"@);
            assert(l.take(("  basalt "@ + command_word(c)).len() as int) =~= "  basalt "@ + command_word(c));
        },
        CliCommand::Launch => {
            reveal_strlit("  basalt launch <name>");
            let l = full_usage_lines()[30];
            assert(l == "  basalt launch <name>"@);
            assert(l.take(("  basalt "@ + command_word(c)).len() as int) =~= "  basalt "@ + command_word(c));
        },
        CliCommand::BackupMattmc => {
            reveal_strlit("  basalt backup-mattmc");
            let l = full_usage_lines()[32];
            assert(l == "  basalt backup-mattmc"@);
            assert(l.take(("  basalt "@ + command_word(c)).len() as int) =~= "  basalt "@ + command_word(c));
        },
        CliCommand::SyncMattmc => {
            reveal_strlit("  basalt sync-mattmc");
            let l = full_usage_lines()[34];
            assert(l == "  basalt sync-mattmc"@);
            assert(l.take(("  basalt "@ + command_word(c)).len() as int) =~= "  basalt "@ + command_word(c));
        },
        CliCommand::AddToPlaylist => {
            reveal_strlit("  basalt add-to-playlist <playlist> <name>");
            let l = full_usage_lines()[9];
            assert(l == "  basalt add-to-playlist <playlist> <name>"@);
            assert(l.take(("  basalt "@ + command_word(c)).len() as int) =~= "  basalt "@ + command_word(c));
        },
        CliCommand::RemoveFromPlaylist => {
            reveal_strlit("  basalt remove-from-playlist <playlist> <name>");
            let l = full_usage_lines()[11];
            assert(l == "  basalt remove-from-playlist <playlist> <name>"@);
            assert(l.take(("  basalt "@ + command_word(c)).len() as int) =~= "  basalt "@ + command_word(c));
        },
        CliCommand::InstallCore => {
            reveal_strlit("  basalt install-core <system>");
            let l = full_usage_lines()[22];
            assert(l == "  basalt install-core <system>"@);
            assert(l.take(("  basalt "@ + command_word(c)).len() as int) =~= "  basalt "@ + command_word(c));
        },
        CliCommand::CoreStatus => {
            reveal_strlit("  basalt core-status <system>");
            let l = full_usage_lines()[24];
            assert(l == "  basalt core-status <system>"@);
            assert(l.take(("  basalt "@ + command_word(c)).len() as int) =~= "  basalt "@ + command_word(c));
        },
        CliCommand::InstallEmulators => {
            reveal_strlit("  basalt install-emulators");
            let l = full_usage_lines()[26];
            assert(l == "  basalt install-emulators"@);
            assert(l.take(("  basalt "@ + command_word(c)).len() as int) =~= "  basalt "@ + command_word(c));
        },
        CliCommand::SyncUp => {
            reveal_strlit("  basalt sync-up <platform>");
            let l = full_usage_lines()[36];
            assert(l == "  basalt sync-up <platform>"@);
            assert(l.take(("  basalt "@ + command_word(c)).len() as int) =~= "  basalt "@ + command_word(c));
        },
        CliCommand::SyncDown => {
            reveal_strlit("  basalt sync-down <platform>");
            let l = full_usage_lines()[38];
            assert(l == "  basalt sync-down <platform>"@);
            assert(l.take(("  basalt "@ + command_word(c)).len() as int) =~= "  basalt "@ + command_word(c));
        },
        CliCommand::SyncSavesUp => {
            reveal_strlit("  basalt sync-saves-up <system>");
            let l = full_usage_lines()[40];
            assert(l == "  basalt sync-saves-up <system>"@);
            assert(l.take(("  basalt "@ + command_word(c)).len() as int) =~= "  basalt "@ + command_word(c));
        },
        CliCommand::SyncSavesDown => {
            reveal_strlit("  basalt sync-saves-down <system>");
            let l = full_usage_lines()[42];
            assert(l == "  basalt sync-saves-down <system>"@);
            assert(l.take(("  basalt "@ + command_word(c)).len() as int) =~= "  basalt "@ + command_word(c));
        },
        CliCommand::Settings => {
            reveal_strlit("  basalt settings get");
            let l = full_usage_lines()[44];
            assert(l == "  basalt settings get"@);
            assert(l.take(("  basalt "@ + command_word(c)).len() as int) =~= "  basalt "@ + command_word(c));
        },
        CliCommand::RefreshMetadata => {
            reveal_strlit("  basalt refresh-metadata");
            let l = full_usage_lines()[48];
            assert(l == "  basalt refresh-metadata"@);
            assert(l.take(("  basalt "@ + command_word(c)).len() as int) =~= "  basalt "@ + command_word(c));
        },
    }
}

/// The full usage text.
pub open spec fn full_usage_text() -> Seq<char> {
    crate::text::join_with(full_usage_lines(), '\n')
}

/// What the arguments give: the command named by the first, or the message for an
/// unknown command (with the full usage after a blank line), or the full usage when
/// there is no argument.
pub open spec fn parse_command_spec(args: Seq<Seq<char>>) -> Result<CliCommand, Seq<char>> {
    if args.len() == 0 {
        Err(full_usage_text())
    } else {
        match command_named(args[0]) {
            Some(c) => Ok(c),
            None => Err("Unknown command: "@ + args[0] + "\n\n"@ + full_usage_text()),
        }
    }
}

/// The character sequences held by a sequence of strings.
pub open spec fn args_view(args: Seq<String>) -> Seq<Seq<char>> {
    Seq::new(args.len(), |i: int| args[i]@)
}

/// Whether `a` is the string `b`.
fn is_word(a: &str, b: &str) -> (r: bool)
    ensures
        r == (a@ == b@),
{
    crate::text::str_eq(a, b)
}

/// The command that the arguments name.
pub fn parse_command(args: &[String]) -> (r: Result<CliCommand, String>)
    ensures
        match parse_command_spec(args_view(args@)) {
            Ok(c) => r == Ok::<CliCommand, String>(c),
            Err(m) => r matches Err(e) && e@ == m,
        },
{
    if args.len() == 0 {
        return Err(full_usage());
    }
    let word = args[0].as_str();
    assert(args_view(args@)[0] == word@);
    if is_word(word, "help") || is_word(word, "-h") || is_word(word, "--help") {
        return Ok(CliCommand::Help);
    }
    if is_word(word, "add") {
        return Ok(CliCommand::Add);
    }
    if is_word(word, "remove") {
        return Ok(CliCommand::Remove);
    }
    if is_word(word, "remove-all") {
        return Ok(CliCommand::RemoveAll);
    }
    if is_word(word, "list") {
        return Ok(CliCommand::List);
    }
    if is_word(word, "discover") {
        return Ok(CliCommand::Discover);
    }
    if is_word(word, "install-mattmc") {
        return Ok(CliCommand::InstallMattmc);
    }
    if is_word(word, "launch") {
        return Ok(CliCommand::Launch);
    }
    if is_word(word, "backup-mattmc") {
        return Ok(CliCommand::BackupMattmc);
    }
    if is_word(word, "sync-mattmc") {
        return Ok(CliCommand::SyncMattmc);
    }
    if is_word(word, "add-to-playlist") {
        return Ok(CliCommand::AddToPlaylist);
    }
    if is_word(word, "remove-from-playlist") {
        return Ok(CliCommand::RemoveFromPlaylist);
    }
    if is_word(word, "install-core") {
        return Ok(CliCommand::InstallCore);
    }
    if is_word(word, "core-status") {
        return Ok(CliCommand::CoreStatus);
    }
    if is_word(word, "install-emulators") {
        return Ok(CliCommand::InstallEmulators);
    }
    if is_word(word, "sync-up") {
        return Ok(CliCommand::SyncUp);
    }
    if is_word(word, "sync-down") {
        return Ok(CliCommand::SyncDown);
    }
    if is_word(word, "sync-saves-up") {
        return Ok(CliCommand::SyncSavesUp);
    }
    if is_word(word, "sync-saves-down") {
        return Ok(CliCommand::SyncSavesDown);
    }
    if is_word(word, "settings") {
        return Ok(CliCommand::Settings);
    }
    if is_word(word, "refresh-metadata") {
        return Ok(CliCommand::RefreshMetadata);
    }
    let mut v: Vec<char> = Vec::new();
    append_str(&mut v, "Unknown command: ");
    append_str(&mut v, word);
    append_str(&mut v, "\n\n");
    let usage = full_usage();
    append_str(&mut v, usage.as_str());
    Err(string_of(&v))
}

/// The discovery runner that a switch of `discover` names, if any.
pub open spec fn discover_switch(word: Seq<char>) -> Option<DiscoverRunner> {
    if word == "--steam"@ {
        Some(DiscoverRunner::Steam)
    } else if word == "--mattmc"@ {
        Some(DiscoverRunner::Mattmc)
    } else if word == "--emulators"@ {
        Some(DiscoverRunner::Emulators)
    } else {
        None
    }
}

/// What the arguments of `discover` give: every runner when no switch follows the
/// command, else the runners that the switches name, in order; the usage line when an
/// argument is no switch.
pub open spec fn parse_discover_spec(args: Seq<Seq<char>>) -> Result<Seq<DiscoverRunner>, Seq<char>> {
    if args.len() <= 1 {
        Ok(seq![DiscoverRunner::Mattmc, DiscoverRunner::Steam, DiscoverRunner::Emulators])
    } else if forall|i: int| 1 <= i < args.len() ==> (#[trigger] discover_switch(args[i])) is Some {
        Ok(Seq::new((args.len() - 1) as nat, |i: int| discover_switch(args[i + 1])->Some_0))
    } else {
        Err("Usage: basalt discover [--steam] [--mattmc] [--emulators]"@)
    }
}

/// The discovery runners that the arguments of `discover` select.
pub fn parse_discover_args(args: &[String]) -> (r: Result<Vec<DiscoverRunner>, String>)
    ensures
        match parse_discover_spec(args_view(args@)) {
            Ok(runners) => r matches Ok(v) && v@ == runners,
            Err(m) => r matches Err(e) && e@ == m,
        },
{
    if args.len() <= 1 {
        return Ok(all_discover_runners());
    }
    let ghost av = args_view(args@);
    let mut runners: Vec<DiscoverRunner> = Vec::new();
    let mut i: usize = 1;
    while i < args.len()
        invariant
            1 <= i <= args@.len(),
            av == args_view(args@),
            forall|k: int| 1 <= k < i ==> (#[trigger] discover_switch(av[k])) is Some,
            runners@ == Seq::new((i - 1) as nat, |k: int| discover_switch(av[k + 1])->Some_0),
        decreases args.len() - i,
    {
        assert(av[i as int] == args@[i as int]@);
        let word = args[i].as_str();
        let runner = if is_word(word, "--steam") {
            DiscoverRunner::Steam
        } else if is_word(word, "--mattmc") {
            DiscoverRunner::Mattmc
        } else if is_word(word, "--emulators") {
            DiscoverRunner::Emulators
        } else {
            assert(discover_switch(av[i as int]) is None);
            return Err(usage_discover());
        };
        runners.push(runner);
        assert(runners@ =~= Seq::new(i as nat, |k: int| discover_switch(av[k + 1])->Some_0));
        i += 1;
    }
    Ok(runners)
}

/// The direction of a sync.
#[derive(Clone, Copy, PartialEq, Eq, Structural, Debug)]
pub enum SyncDirection {
    Up,
    Down,
}

/// What a sync command syncs: MattMC's data, or the ROMs of an emulated system.
#[derive(Clone, Debug)]
pub enum SyncPlatform {
    Mattmc,
    Emulator(String),
}

/// The usage line of a sync command.
pub open spec fn sync_usage(direction: SyncDirection) -> Seq<char> {
    match direction {
        SyncDirection::Up => "Usage: basalt sync-up <platform>"@,
        SyncDirection::Down => "Usage: basalt sync-down <platform>"@,
    }
}

/// What the arguments of a sync command give: MattMC when the trimmed platform is
/// `mattmc` up to ASCII case, else the trimmed system key; the usage line when there is
/// not exactly one argument after the command or it is blank.
pub open spec fn parse_sync_spec(args: Seq<Seq<char>>, direction: SyncDirection) -> Result<
    Option<Seq<char>>,
    Seq<char>,
> {
    if args.len() != 2 || trim_seq(args[1]).len() == 0 {
        Err(sync_usage(direction))
    } else if eq_ignore_ascii_case_seq(trim_seq(args[1]), "mattmc"@) {
        Ok(None)
    } else {
        Ok(Some(trim_seq(args[1])))
    }
}

/// The platform that the arguments of a sync command name.
pub fn parse_sync_args(args: &[String], direction: SyncDirection) -> (r: Result<SyncPlatform, String>)
    ensures
        match parse_sync_spec(args_view(args@), direction) {
            Ok(None) => r matches Ok(SyncPlatform::Mattmc),
            Ok(Some(k)) => r matches Ok(SyncPlatform::Emulator(s)) && s@ == k,
            Err(m) => r matches Err(e) && e@ == m,
        },
{
    let usage = match direction {
        SyncDirection::Up => usage_sync_up(),
        SyncDirection::Down => usage_sync_down(),
    };
    if args.len() != 2 {
        return Err(usage);
    }
    assert(args_view(args@)[1] == args@[1]@);
    let platform = trim_str(args[1].as_str());
    let pv = chars_of(platform.as_str());
    if pv.len() == 0 {
        return Err(usage);
    }
    if chars_eq_ignore_ascii_case(&pv, &chars_of("mattmc")) {
        return Ok(SyncPlatform::Mattmc);
    }
    Ok(SyncPlatform::Emulator(platform))
}

/// What the arguments of a command taking one system key give: the trimmed key, or
/// the usage line when there is not exactly one argument after the command or it is
/// blank.
pub open spec fn parse_system_spec(args: Seq<Seq<char>>, usage: Seq<char>) -> Result<
    Seq<char>,
    Seq<char>,
> {
    if args.len() != 2 || trim_seq(args[1]).len() == 0 {
        Err(usage)
    } else {
        Ok(trim_seq(args[1]))
    }
}

/// The system key that the arguments of a command name.
pub fn parse_system_args(args: &[String], usage: String) -> (r: Result<String, String>)
    ensures
        match parse_system_spec(args_view(args@), usage@) {
            Ok(k) => r matches Ok(s) && s@ == k,
            Err(m) => r matches Err(e) && e@ == m,
        },
{
    if args.len() != 2 {
        return Err(usage);
    }
    assert(args_view(args@)[1] == args@[1]@);
    let system = trim_str(args[1].as_str());
    if chars_of(system.as_str()).len() == 0 {
        return Err(usage);
    }
    Ok(system)
}

/// The two trimmed names that a command taking a first and a second name is given, or
/// the usage line when it is not given exactly two.
pub fn parse_two_names(args: &[String], usage: String) -> (r: Result<(String, String), String>)
    ensures
        args@.len() != 3 ==> (r matches Err(e) && e@ == usage@),
        args@.len() == 3 ==> (r matches Ok(p) && p.0@ == trim_seq(args@[1]@) && p.1@ == trim_seq(
            args@[2]@,
        )),
{
    if args.len() != 3 {
        return Err(usage);
    }
    Ok((trim_str(args[1].as_str()), trim_str(args[2].as_str())))
}

/// The trimmed name that a command taking one name is given, or the usage line when it
/// is not given exactly one.
pub fn parse_one_name(args: &[String], usage: String) -> (r: Result<String, String>)
    ensures
        args@.len() != 2 ==> (r matches Err(e) && e@ == usage@),
        args@.len() == 2 ==> (r matches Ok(n) && n@ == trim_seq(args@[1]@)),
{
    if args.len() != 2 {
        return Err(usage);
    }
    Ok(trim_str(args[1].as_str()))
}

/// A settings command.
#[derive(Clone, Copy, PartialEq, Eq, Structural, Debug)]
pub enum SettingsCommand {
    Get,
    Change,
}

/// The settings usage text.
pub open spec fn settings_usage_text() -> Seq<char> {
    crate::text::join_with(settings_usage_lines(), '\n')
}

/// What the arguments of the settings command give: `get` (with no further argument,
/// else the usage line of `get`) or `set`, else the settings usage text.
pub open spec fn parse_settings_spec(args: Seq<Seq<char>>) -> Result<SettingsCommand, Seq<char>> {
    if args.len() < 2 {
        Err(settings_usage_text())
    } else if args[1] == "get"@ {
        if args.len() == 2 {
            Ok(SettingsCommand::Get)
        } else {
            Err("Usage: basalt settings get"@)
        }
    } else if args[1] == "set"@ {
        Ok(SettingsCommand::Change)
    } else {
        Err(settings_usage_text())
    }
}

/// The settings command that the arguments name.
pub fn parse_settings_command(args: &[String]) -> (r: Result<SettingsCommand, String>)
    ensures
        match parse_settings_spec(args_view(args@)) {
            Ok(c) => r == Ok::<SettingsCommand, String>(c),
            Err(m) => r matches Err(e) && e@ == m,
        },
{
    if args.len() < 2 {
        return Err(usage_settings());
    }
    assert(args_view(args@)[1] == args@[1]@);
    if is_word(args[1].as_str(), "get") {
        if args.len() != 2 {
            return Err(usage_settings_get());
        }
        return Ok(SettingsCommand::Get);
    }
    if is_word(args[1].as_str(), "set") {
        return Ok(SettingsCommand::Change);
    }
    Err(usage_settings())
}

/// The new remote directories given to `settings set`, either possibly missing.
#[derive(Clone, Debug)]
pub struct SettingsOverrides {
    pub roms_root: Option<String>,
    pub saves_root: Option<String>,
}

/// What the options of `settings set` from position `i` on give, starting from the
/// overrides `(roms, saves)`: each `--roms-root` or `--saves-root` takes the next
/// argument, trimmed (a later one wins); anything else, or an option without a value,
/// is refused.
pub open spec fn parse_set_options(
    args: Seq<Seq<char>>,
    i: int,
    roms: Option<Seq<char>>,
    saves: Option<Seq<char>>,
) -> Option<(Option<Seq<char>>, Option<Seq<char>>)>
    decreases args.len() - i,
{
    if i >= args.len() || i < 0 {
        Some((roms, saves))
    } else if i + 1 >= args.len() {
        None
    } else if args[i] == "--roms-root"@ {
        parse_set_options(args, i + 2, Some(trim_seq(args[i + 1])), saves)
    } else if args[i] == "--saves-root"@ {
        parse_set_options(args, i + 2, roms, Some(trim_seq(args[i + 1])))
    } else {
        None
    }
}

/// What the arguments of `settings set` give: the overrides, or the usage line when
/// there is no option, an option is malformed, or neither directory is given.
pub open spec fn parse_settings_set_spec(args: Seq<Seq<char>>) -> Result<
    (Option<Seq<char>>, Option<Seq<char>>),
    Seq<char>,
> {
    if args.len() < 3 {
        Err("Usage: basalt settings set [--roms-root <path>] [--saves-root <path>]"@)
    } else {
        match parse_set_options(args, 2, None, None) {
            None => Err("Usage: basalt settings set [--roms-root <path>] [--saves-root <path>]"@),
            Some(o) => if o.0 is None && o.1 is None {
                Err("Usage: basalt settings set [--roms-root <path>] [--saves-root <path>]"@)
            } else {
                Ok(o)
            },
        }
    }
}

/// The contents of an optional string.
pub open spec fn opt_chars(v: Option<String>) -> Option<Seq<char>> {
    match v {
        Some(s) => Some(s@),
        None => None,
    }
}

/// The overrides that the arguments of `settings set` give.
pub fn parse_settings_set(args: &[String]) -> (r: Result<SettingsOverrides, String>)
    ensures
        match parse_settings_set_spec(args_view(args@)) {
            Ok(o) => r matches Ok(v) && opt_chars(v.roms_root) == o.0 && opt_chars(v.saves_root)
                == o.1,
            Err(m) => r matches Err(e) && e@ == m,
        },
{
    if args.len() < 3 {
        return Err(usage_settings_set());
    }
    let ghost av = args_view(args@);
    let mut roms: Option<String> = None;
    let mut saves: Option<String> = None;
    let mut index: usize = 2;
    while index < args.len()
        invariant
            2 <= index,
            av == args_view(args@),
            parse_set_options(av, 2, None, None) == parse_set_options(
                av,
                index as int,
                opt_chars(roms),
                opt_chars(saves),
            ),
        decreases args.len() - index,
    {
        assert(av[index as int] == args@[index as int]@);
        let word = args[index].as_str();
        if index + 1 >= args.len() {
            return Err(usage_settings_set());
        }
        assert(av[index + 1] == args@[index + 1]@);
        if is_word(word, "--roms-root") {
            roms = Some(trim_str(args[index + 1].as_str()));
            index += 2;
        } else if is_word(word, "--saves-root") {
            saves = Some(trim_str(args[index + 1].as_str()));
            index += 2;
        } else {
            return Err(usage_settings_set());
        }
    }
    if roms.is_none() && saves.is_none() {
        return Err(usage_settings_set());
    }
    Ok(SettingsOverrides { roms_root: roms, saves_root: saves })
}

/// `n` written in decimal, appended.
fn push_count(v: &mut Vec<char>, n: usize)
    ensures
        final(v)@ == old(v)@ + decimal_string(n as nat),
{
    push_decimal(v, n as u64);
}

/// The summary of a sync: `"{label} ({SYSTEM}) complete: copied {c}, unchanged {u},
/// deleted {d}."`, with the system in upper case.
pub open spec fn sync_summary_spec(label: Seq<char>, system: Seq<char>, report: RomSyncReport) -> Seq<
    char,
> {
    label + " ("@ + unicode_uppercase(system) + ") complete: copied "@ + decimal_string(
        report.copied as nat,
    ) + ", unchanged "@ + decimal_string(report.unchanged as nat) + ", deleted "@
        + decimal_string(report.deleted as nat) + "."@
}

/// The summary of a sync.
pub fn sync_summary(label: &str, system: &str, report: &RomSyncReport) -> (r: String)
    ensures
        r@ == sync_summary_spec(label@, system@, *report),
{
    let mut v: Vec<char> = Vec::new();
    append_str(&mut v, label);
    append_str(&mut v, " (");
    let upper = to_uppercase(system);
    append_str(&mut v, upper.as_str());
    append_str(&mut v, ") complete: copied ");
    push_count(&mut v, report.copied);
    append_str(&mut v, ", unchanged ");
    push_count(&mut v, report.unchanged);
    append_str(&mut v, ", deleted ");
    push_count(&mut v, report.deleted);
    append_str(&mut v, ".");
    string_of(&v)
}

/// The summary of an emulator discovery.
pub open spec fn emulator_discover_summary_spec(report: EmulatorDiscoverReport) -> Seq<char> {
    "Emulator discover: found "@ + decimal_string(report.found as nat) + ", added "@
        + decimal_string(report.added as nat) + ", updated "@ + decimal_string(
        report.updated as nat,
    ) + ", already existed "@ + decimal_string(report.already_exists as nat) + "."@
}

/// The summary of an emulator discovery.
pub fn emulator_discover_summary(report: &EmulatorDiscoverReport) -> (r: String)
    ensures
        r@ == emulator_discover_summary_spec(*report),
{
    let mut v: Vec<char> = Vec::new();
    append_str(&mut v, "Emulator discover: found ");
    push_count(&mut v, report.found);
    append_str(&mut v, ", added ");
    push_count(&mut v, report.added);
    append_str(&mut v, ", updated ");
    push_count(&mut v, report.updated);
    append_str(&mut v, ", already existed ");
    push_count(&mut v, report.already_exists);
    append_str(&mut v, ".");
    string_of(&v)
}

/// `"yes"` or `"no"`.
pub fn yes_no(b: bool) -> (r: &'static str)
    ensures
        b ==> r@ == "yes"@,
        !b ==> r@ == "no"@,
{
    if b {
        "yes"
    } else {
        "no"
    }
}

} // verus!
