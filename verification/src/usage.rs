//! The usage texts of the command line.
use vstd::prelude::*;

use crate::text::{join_strs, join_with, lacks_char, lemma_split_join, split_on, str_views};

verus! {

broadcast use vstd::string::group_string_axioms;

/// The usage line for adding a game.
pub fn usage_add() -> (r: String)
    ensures
        r@ == "Usage: basalt add <name> <target>"@,
{
    "Usage: basalt add <name> <target>".to_owned()
}

/// The usage line for removing a game.
pub fn usage_remove() -> (r: String)
    ensures
        r@ == "Usage: basalt remove <name>"@,
{
    "Usage: basalt remove <name>".to_owned()
}

/// The usage line for adding a game to a playlist.
pub fn usage_add_to_playlist() -> (r: String)
    ensures
        r@ == "Usage: basalt add-to-playlist <playlist> <name>"@,
{
    "Usage: basalt add-to-playlist <playlist> <name>".to_owned()
}

/// The usage line for removing a game from a playlist.
pub fn usage_remove_from_playlist() -> (r: String)
    ensures
        r@ == "Usage: basalt remove-from-playlist <playlist> <name>"@,
{
    "Usage: basalt remove-from-playlist <playlist> <name>".to_owned()
}

/// The usage line for removing every game.
pub fn usage_remove_all() -> (r: String)
    ensures
        r@ == "Usage: basalt remove-all"@,
{
    "Usage: basalt remove-all".to_owned()
}

/// The usage line for launching a game.
pub fn usage_launch() -> (r: String)
    ensures
        r@ == "Usage: basalt launch <name>"@,
{
    "Usage: basalt launch <name>".to_owned()
}

/// The usage line for discovering games.
pub fn usage_discover() -> (r: String)
    ensures
        r@ == "Usage: basalt discover [--steam] [--mattmc] [--emulators]"@,
{
    "Usage: basalt discover [--steam] [--mattmc] [--emulators]".to_owned()
}

/// The usage line for installing an emulator core.
pub fn usage_install_core() -> (r: String)
    ensures
        r@ == "Usage: basalt install-core <system>"@,
{
    "Usage: basalt install-core <system>".to_owned()
}

/// The usage line for showing a core's status.
pub fn usage_core_status() -> (r: String)
    ensures
        r@ == "Usage: basalt core-status <system>"@,
{
    "Usage: basalt core-status <system>".to_owned()
}

/// The usage line for syncing a platform up.
pub fn usage_sync_up() -> (r: String)
    ensures
        r@ == "Usage: basalt sync-up <platform>"@,
{
    "Usage: basalt sync-up <platform>".to_owned()
}

/// The usage line for syncing a platform down.
pub fn usage_sync_down() -> (r: String)
    ensures
        r@ == "Usage: basalt sync-down <platform>"@,
{
    "Usage: basalt sync-down <platform>".to_owned()
}

/// The usage line for syncing saves up.
pub fn usage_sync_saves_up() -> (r: String)
    ensures
        r@ == "Usage: basalt sync-saves-up <system>"@,
{
    "Usage: basalt sync-saves-up <system>".to_owned()
}

/// The usage line for syncing saves down.
pub fn usage_sync_saves_down() -> (r: String)
    ensures
        r@ == "Usage: basalt sync-saves-down <system>"@,
{
    "Usage: basalt sync-saves-down <system>".to_owned()
}

/// The usage line for showing the settings.
pub fn usage_settings_get() -> (r: String)
    ensures
        r@ == "Usage: basalt settings get"@,
{
    "Usage: basalt settings get".to_owned()
}

/// The usage line for changing the settings.
pub fn usage_settings_set() -> (r: String)
    ensures
        r@ == "Usage: basalt settings set [--roms-root <path>] [--saves-root <path>]"@,
{
    "Usage: basalt settings set [--roms-root <path>] [--saves-root <path>]".to_owned()
}

/// The usage line for clearing cached artwork.
pub fn usage_refresh_metadata() -> (r: String)
    ensures
        r@ == "Usage: basalt refresh-metadata"@,
{
    "Usage: basalt refresh-metadata".to_owned()
}

/// The usage line for running the MattMC sync script.
pub fn usage_sync_mattmc() -> (r: String)
    ensures
        r@ == "Usage: basalt sync-mattmc"@,
{
    "Usage: basalt sync-mattmc".to_owned()
}

/// The lines of the usage text of the settings command.
pub open spec fn settings_usage_lines() -> Seq<Seq<char>> {
    seq![
        "Usage:"@,
        "  basalt settings get"@,
        "  basalt settings set [--roms-root <path>] [--saves-root <path>]"@,
    ]
}

/// The usage text of the settings command, one form per line.
pub fn usage_settings() -> (r: String)
    ensures
        r@ == join_with(settings_usage_lines(), '\n'),
{
    let lines: Vec<&str> = vec![
        "Usage:",
        "  basalt settings get",
        "  basalt settings set [--roms-root <path>] [--saves-root <path>]",
    ];
    assert(str_views(lines@) =~= settings_usage_lines());
    join_strs(&lines, '\n')
}

/// The lines of the full usage text.
pub open spec fn full_usage_lines() -> Seq<Seq<char>> {
    seq![
        "Basalt CLI"@,
        "Usage:"@,
        "  basalt                        Launch GUI (default when no switch is provided)"@,
        "  basalt help                   Show this help message"@,
        "  basalt -h | --help           Show this help message"@,
        "  basalt add <name> <target>"@,
        "                               Add a game via script file, Steam appid/URL, or emulator launch target"@,
        "  basalt remove <name>"@,
        "                               Remove a saved game by name"@,
        "  basalt add-to-playlist <playlist> <name>"@,
        "                               Add a game to an existing playlist (e.g. Favorites)"@,
        "  basalt remove-from-playlist <playlist> <name>"@,
        "                               Remove a game from an existing playlist"@,
        "  basalt remove-all"@,
        "                               Remove all saved games"@,
        "  basalt list"@,
        "                               List all added games"@,
        "  basalt discover [--steam] [--mattmc] [--emulators]"@,
        "                               Discover games and add new entries (no switches = all discover runners)"@,
        "                               --steam discovers Steam games only"@,
        "                               --mattmc discovers MattMC only"@,
        "                               --emulators discovers emulator ROM entries only"@,
        "  basalt install-core <system>"@,
        "                               Install a RetroArch core for one system key (e.g. nes, gba, snes, atari2600, nds, 3ds)"@,
        "  basalt core-status <system>"@,
        "                               Show whether a system core is installed and if save sync is supported"@,
        "  basalt install-emulators"@,
        "                               Install RetroArch runtime plus built-in emulator cores"@,
        "  basalt install-mattmc"@,
        "                               Download latest MattMC release into ~/Games/MattMC"@,
        "  basalt launch <name>"@,
        "                               Launch a saved game by name"@,
        "  basalt backup-mattmc"@,
        "                               Run backup.sh from MattMC launch script directory"@,
        "  basalt sync-mattmc"@,
        "                               Run SyncGameData.sh from MattMC launch script directory"@,
        "  basalt sync-up <platform>"@,
        "                               Sync up for a platform: use mattmc or emulator system key (e.g. nes, gba)"@,
        "  basalt sync-down <platform>"@,
        "                               Sync down for a platform: mattmc or emulator system key (emulators also run discover)"@,
        "  basalt sync-saves-up <system>"@,
        "                               Sync local save files to remote for a system key"@,
        "  basalt sync-saves-down <system>"@,
        "                               Sync remote save files to local for a system key"@,
        "  basalt settings get"@,
        "                               Show remote ROM/Saves root directories used by sync commands"@,
        "  basalt settings set [--roms-root <path>] [--saves-root <path>]"@,
        "                               Update remote ROM/Saves root directories"@,
        "  basalt refresh-metadata"@,
        "                               Clear cached artwork metadata and images"@,
    ]
}

/// The full usage text: every command with what it does, one line each.
pub fn full_usage() -> (r: String)
    ensures
        r@ == join_with(full_usage_lines(), '\n'),
{
    let lines: Vec<&str> = vec![
        "Basalt CLI",
        "Usage:",
        "  basalt                        Launch GUI (default when no switch is provided)",
        "  basalt help                   Show this help message",
        "  basalt -h | --help           Show this help message",
        "  basalt add <name> <target>",
        "                               Add a game via script file, Steam appid/URL, or emulator launch target",
        "  basalt remove <name>",
        "                               Remove a saved game by name",
        "  basalt add-to-playlist <playlist> <name>",
        "                               Add a game to an existing playlist (e.g. Favorites)",
        "  basalt remove-from-playlist <playlist> <name>",
        "                               Remove a game from an existing playlist",
        "  basalt remove-all",
        "                               Remove all saved games",
        "  basalt list",
        "                               List all added games",
        "  basalt discover [--steam] [--mattmc] [--emulators]",
        "                               Discover games and add new entries (no switches = all discover runners)",
        "                               --steam discovers Steam games only",
        "                               --mattmc discovers MattMC only",
        "                               --emulators discovers emulator ROM entries only",
        "  basalt install-core <system>",
        "                               Install a RetroArch core for one system key (e.g. nes, gba, snes, atari2600, nds, 3ds)",
        "  basalt core-status <system>",
        "                               Show whether a system core is installed and if save sync is supported",
        "  basalt install-emulators",
        "                               Install RetroArch runtime plus built-in emulator cores",
        "  basalt install-mattmc",
        "                               Download latest MattMC release into ~/Games/MattMC",
        "  basalt launch <name>",
        "                               Launch a saved game by name",
        "  basalt backup-mattmc",
        "                               Run backup.sh from MattMC launch script directory",
        "  basalt sync-mattmc",
        "                               Run SyncGameData.sh from MattMC launch script directory",
        "  basalt sync-up <platform>",
        "                               Sync up for a platform: use mattmc or emulator system key (e.g. nes, gba)",
        "  basalt sync-down <platform>",
        "                               Sync down for a platform: mattmc or emulator system key (emulators also run discover)",
        "  basalt sync-saves-up <system>",
        "                               Sync local save files to remote for a system key",
        "  basalt sync-saves-down <system>",
        "                               Sync remote save files to local for a system key",
        "  basalt settings get",
        "                               Show remote ROM/Saves root directories used by sync commands",
        "  basalt settings set [--roms-root <path>] [--saves-root <path>]",
        "                               Update remote ROM/Saves root directories",
        "  basalt refresh-metadata",
        "                               Clear cached artwork metadata and images",
    ];
    assert(str_views(lines@) =~= full_usage_lines());
    join_strs(&lines, '\n')
}


/// The full usage text splits at its line breaks into exactly its lines, the first
/// `Basalt CLI` and the second `Usage:`.
pub proof fn lemma_full_usage_splits_into_lines()
    ensures
        split_on(join_with(full_usage_lines(), '\n'), '\n') == full_usage_lines(),
        full_usage_lines()[0] == "Basalt CLI"@,
        full_usage_lines()[1] == "Usage:"@,
{
    reveal_strlit("Basalt CLI");
    reveal_strlit("Usage:");
    reveal_strlit("  basalt                        Launch GUI (default when no switch is provided)");
    reveal_strlit("  basalt help                   Show this help message");
    reveal_strlit("  basalt -h | --help           Show this help message");
    reveal_strlit("  basalt add <name> <target>");
    reveal_strlit("                               Add a game via script file, Steam appid/URL, or emulator launch target");
    reveal_strlit("  basalt remove <name>");
    reveal_strlit("                               Remove a saved game by name");
    reveal_strlit("  basalt add-to-playlist <playlist> <name>");
    reveal_strlit("                               Add a game to an existing playlist (e.g. Favorites)");
    reveal_strlit("  basalt remove-from-playlist <playlist> <name>");
    reveal_strlit("                               Remove a game from an existing playlist");
    reveal_strlit("  basalt remove-all");
    reveal_strlit("                               Remove all saved games");
    reveal_strlit("  basalt list");
    reveal_strlit("                               List all added games");
    reveal_strlit("  basalt discover [--steam] [--mattmc] [--emulators]");
    reveal_strlit("                               Discover games and add new entries (no switches = all discover runners)");
    reveal_strlit("                               --steam discovers Steam games only");
    reveal_strlit("                               --mattmc discovers MattMC only");
    reveal_strlit("                               --emulators discovers emulator ROM entries only");
    reveal_strlit("  basalt install-core <system>");
    reveal_strlit("                               Install a RetroArch core for one system key (e.g. nes, gba, snes, atari2600, nds, 3ds)");
    reveal_strlit("  basalt core-status <system>");
    reveal_strlit("                               Show whether a system core is installed and if save sync is supported");
    reveal_strlit("  basalt install-emulators");
    reveal_strlit("                               Install RetroArch runtime plus built-in emulator cores");
    reveal_strlit("  basalt install-mattmc");
    reveal_strlit("                               Download latest MattMC release into ~/Games/MattMC");
    reveal_strlit("  basalt launch <name>");
    reveal_strlit("                               Launch a saved game by name");
    reveal_strlit("  basalt backup-mattmc");
    reveal_strlit("                               Run backup.sh from MattMC launch script directory");
    reveal_strlit("  basalt sync-mattmc");
    reveal_strlit("                               Run SyncGameData.sh from MattMC launch script directory");
    reveal_strlit("  basalt sync-up <platform>");
    reveal_strlit("                               Sync up for a platform: use mattmc or emulator system key (e.g. nes, gba)");
    reveal_strlit("  basalt sync-down <platform>");
    reveal_strlit("                               Sync down for a platform: mattmc or emulator system key (emulators also run discover)");
    reveal_strlit("  basalt sync-saves-up <system>");
    reveal_strlit("                               Sync local save files to remote for a system key");
    reveal_strlit("  basalt sync-saves-down <system>");
    reveal_strlit("                               Sync remote save files to local for a system key");
    reveal_strlit("  basalt settings get");
    reveal_strlit("                               Show remote ROM/Saves root directories used by sync commands");
    reveal_strlit("  basalt settings set [--roms-root <path>] [--saves-root <path>]");
    reveal_strlit("                               Update remote ROM/Saves root directories");
    reveal_strlit("  basalt refresh-metadata");
    reveal_strlit("                               Clear cached artwork metadata and images");
    let lines = full_usage_lines();
    assert forall|i: int| 0 <= i < lines.len() implies lacks_char(#[trigger] lines[i], '\n') by {}
    lemma_split_join(lines, '\n');
}

} // verus!
