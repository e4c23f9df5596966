//! Bash scripts and Steam apps as game targets: which scripts are accepted, how the
//! scripts beside a game's script are found, how a Steam app is launched, and the
//! messages of failed launches.
use vstd::prelude::*;

use crate::emulation::{file_name_extension, file_name_of, name_extension, path_file_name};
use crate::error::CoreError;
use crate::games::{find_game, find_game_spec};
use crate::runners::{is_valid_steam_appid, RunnerKind};
use crate::runtime::{exit_code_spec, exit_code_text, texts, CommandLine};
use crate::text::{
    all_digits, append_str, chars_eq_ignore_ascii_case, chars_of, eq_ignore_ascii_case_seq,
    string_of,
};
use crate::types::{entries_view, GameEntry};

verus! {

broadcast use vstd::string::group_string_axioms;

/// The game whose scripts the MattMC commands run.
pub const MATTMC_GAME_NAME: &'static str = "MattMC";

/// The MattMC script that syncs its game data.
pub const MATTMC_SYNC_SCRIPT: &'static str = "SyncGameData.sh";

/// The MattMC script that backs up its data.
pub const MATTMC_BACKUP_SCRIPT: &'static str = "backup.sh";

/// What the sync script is told on its standard input to sync up.
pub const SYNC_UP_INPUT: &'static str = "up\n";

/// What the sync script is told on its standard input to sync down.
pub const SYNC_DOWN_INPUT: &'static str = "down\n";

/// `{a}{b}{c}` as a string.
fn message3(a: &str, b: &str, c: &str) -> (r: String)
    ensures
        r@ == a@ + b@ + c@,
{
    let mut v: Vec<char> = Vec::new();
    append_str(&mut v, a);
    append_str(&mut v, b);
    append_str(&mut v, c);
    string_of(&v)
}

// ---------------------------------------------------------------------------
// Bash scripts
// ---------------------------------------------------------------------------

/// Whether the file at `path` has the extension `sh`, in any ASCII case.
pub open spec fn has_sh_extension_spec(path: Seq<char>) -> bool {
    match path_file_name(path) {
        None => false,
        Some(n) => match name_extension(n) {
            None => false,
            Some(e) => eq_ignore_ascii_case_seq(e, "sh"@),
        },
    }
}

/// Whether the file at `path` has the extension `sh`.
pub fn has_sh_extension(path: &str) -> (r: bool)
    ensures
        r == has_sh_extension_spec(path@),
{
    match file_name_of(path) {
        None => false,
        Some(n) => match file_name_extension(n.as_str()) {
            None => false,
            Some(e) => chars_eq_ignore_ascii_case(&chars_of(e.as_str()), &chars_of("sh")),
        },
    }
}

/// What resolving a bash script path gives: refused when no file is there, or when it
/// is not a `.sh` file; else the canonical path (`canonical`, what making the path
/// canonical gave, or why it failed).
pub open spec fn bash_script_spec(
    raw_script_path: Seq<char>,
    is_file: bool,
    canonical: Result<Seq<char>, Seq<char>>,
) -> Result<Seq<char>, Seq<char>> {
    if !is_file {
        Err("Script does not exist or is not a file: "@ + raw_script_path)
    } else if !has_sh_extension_spec(raw_script_path) {
        Err("Only bash scripts are supported right now (expected .sh file)"@)
    } else {
        match canonical {
            Ok(p) => Ok(p),
            Err(e) => Err("Failed to resolve script path: "@ + e),
        }
    }
}

/// The canonical path of a bash script given as a game target: `is_file` says whether
/// a file is at `raw_script_path`, and `canonical` what making the path canonical gave.
pub fn normalize_bash_script_path(
    raw_script_path: &str,
    is_file: bool,
    canonical: Result<String, String>,
) -> (r: Result<String, String>)
    ensures
        match bash_script_spec(raw_script_path@, is_file, crate::games::script_view(canonical)) {
            Ok(p) => r matches Ok(s) && s@ == p,
            Err(m) => r matches Err(e) && e@ == m,
        },
{
    if !is_file {
        return Err(crate::text::concat2("Script does not exist or is not a file: ", raw_script_path));
    }
    if !has_sh_extension(raw_script_path) {
        return Err("Only bash scripts are supported right now (expected .sh file)".to_owned());
    }
    match canonical {
        Ok(p) => Ok(p),
        Err(e) => Err(crate::text::concat2("Failed to resolve script path: ", e.as_str())),
    }
}

/// The message for a saved script that is no longer a file.
pub fn saved_script_missing_message(script_path: &str) -> (r: String)
    ensures
        r@ == "Saved script path does not exist or is not a file: "@ + script_path@,
{
    crate::text::concat2("Saved script path does not exist or is not a file: ", script_path)
}

/// The message for a script that exited unsuccessfully.
pub fn script_exit_message(exit_code: Option<i32>) -> (r: String)
    ensures
        r@ == "Script exited with non-zero status: "@ + exit_code_spec(exit_code),
{
    let code = exit_code_text(exit_code);
    crate::text::concat2("Script exited with non-zero status: ", code.as_str())
}

// ---------------------------------------------------------------------------
// Scripts beside a game's script
// ---------------------------------------------------------------------------

/// What is wrong with a request to run a script beside a game's, if anything: an
/// empty game name, or an empty script name.
pub open spec fn sibling_request_problem(game_name: Seq<char>, script_name: Seq<char>) -> Option<
    Seq<char>,
> {
    if game_name.len() == 0 {
        Some("Game name cannot be empty"@)
    } else if script_name.len() == 0 {
        Some("Script name cannot be empty"@)
    } else {
        None
    }
}

/// Checks a request to run a script beside a game's.
pub fn check_sibling_request(game_name: &str, script_name: &str) -> (r: Result<(), CoreError>)
    ensures
        match sibling_request_problem(game_name@, script_name@) {
            Some(m) => r matches Err(e) && e@ == m,
            None => r is Ok,
        },
{
    if chars_of(game_name).len() == 0 {
        return Err(CoreError::new("Game name cannot be empty".to_owned()));
    }
    if chars_of(script_name).len() == 0 {
        return Err(CoreError::new("Script name cannot be empty".to_owned()));
    }
    Ok(())
}

/// What finding the script of the game beside whose script another is run gives: the
/// game's launch script, or the message of why there is none (the request is refused,
/// no game has the name, or the game is not launched by bash).
pub open spec fn sibling_base_spec(
    game_name: Seq<char>,
    script_name: Seq<char>,
    entries: Seq<crate::types::GameEntryView>,
) -> Result<Seq<char>, Seq<char>> {
    match sibling_request_problem(game_name, script_name) {
        Some(m) => Err(m),
        None => match find_game_spec(game_name, entries) {
            Err(m) => Err(m),
            Ok(g) => if g.runner_kind != RunnerKind::Bash {
                Err("Game '"@ + game_name
                    + "' does not use the bash runner, so sibling scripts are not supported"@)
            } else {
                Ok(g.launch_target)
            },
        },
    }
}

/// The launch script of the game beside whose script another is run.
pub fn sibling_base_script(game_name: &str, script_name: &str, entries: &[GameEntry]) -> (r: Result<
    String,
    CoreError,
>)
    ensures
        match sibling_base_spec(game_name@, script_name@, entries_view(entries@)) {
            Ok(p) => r matches Ok(s) && s@ == p,
            Err(m) => r matches Err(e) && e@ == m,
        },
{
    check_sibling_request(game_name, script_name)?;
    let game = find_game(game_name, entries)?;
    if game.runner_kind != RunnerKind::Bash {
        return Err(
            CoreError::new(
                message3(
                    "Game '",
                    game_name,
                    "' does not use the bash runner, so sibling scripts are not supported",
                ),
            ),
        );
    }
    Ok(game.launch_target)
}

/// Checks what a script is to be given on its standard input: it cannot be empty.
pub fn check_script_input(stdin_content: &str) -> (r: Result<(), CoreError>)
    ensures
        stdin_content@.len() == 0 ==> (r matches Err(e) && e@ == "Script stdin content cannot be empty"@),
        stdin_content@.len() > 0 ==> r is Ok,
{
    if chars_of(stdin_content).len() == 0 {
        return Err(CoreError::new("Script stdin content cannot be empty".to_owned()));
    }
    Ok(())
}

/// The message for a game script whose directory cannot be determined.
pub fn no_parent_directory_message(script_path: &str) -> (r: String)
    ensures
        r@ == "Could not determine parent directory for script: "@ + script_path@,
{
    crate::text::concat2("Could not determine parent directory for script: ", script_path)
}

/// The message for a missing script beside a game's.
pub fn missing_sibling_script_message(game_name: &str, sibling_path: &str) -> (r: String)
    ensures
        r@ == "No script found for '"@ + game_name@ + "' at "@ + sibling_path@,
{
    let mut v: Vec<char> = Vec::new();
    append_str(&mut v, "No script found for '");
    append_str(&mut v, game_name);
    append_str(&mut v, "' at ");
    append_str(&mut v, sibling_path);
    string_of(&v)
}

// ---------------------------------------------------------------------------
// Steam apps
// ---------------------------------------------------------------------------

/// The Flatpak application that provides Steam.
pub const STEAM_FLATPAK_APP_ID: &'static str = "com.valvesoftware.Steam";

/// What launching a Steam app gives: refused for an appid that is not all digits;
/// else the `steam` program when it is on the search path, else the Steam Flatpak
/// when it is installed, else `open` with the app's Steam address where that is how
/// the system opens addresses; else refused.
pub open spec fn steam_launch_spec(
    appid: Seq<char>,
    steam_on_path: bool,
    flatpak_steam: bool,
    can_open_urls: bool,
) -> Result<(Seq<char>, Seq<Seq<char>>), Seq<char>> {
    if appid.len() == 0 || !all_digits(appid) {
        Err("Invalid Steam appid: "@ + appid)
    } else if steam_on_path {
        Ok(("steam"@, seq!["-applaunch"@, appid]))
    } else if flatpak_steam {
        Ok(("flatpak"@, seq!["run"@, STEAM_FLATPAK_APP_ID@, "-applaunch"@, appid]))
    } else if can_open_urls {
        Ok(("open"@, seq!["steam://rungameid/"@ + appid]))
    } else {
        Err("Steam is not installed or not on PATH."@)
    }
}

/// The command that launches the Steam app `appid`.
pub fn steam_launch_command(
    appid: &str,
    steam_on_path: bool,
    flatpak_steam: bool,
    can_open_urls: bool,
) -> (r: Result<CommandLine, String>)
    ensures
        match steam_launch_spec(appid@, steam_on_path, flatpak_steam, can_open_urls) {
            Ok(c) => r matches Ok(x) && (x.program@, texts(x.args@)) == c,
            Err(m) => r matches Err(e) && e@ == m,
        },
{
    if !is_valid_steam_appid(appid) {
        return Err(crate::text::concat2("Invalid Steam appid: ", appid));
    }
    if steam_on_path {
        let args = vec!["-applaunch".to_owned(), appid.to_owned()];
        assert(texts(args@) =~= seq!["-applaunch"@, appid@]);
        return Ok(CommandLine { program: "steam".to_owned(), args });
    }
    if flatpak_steam {
        let args = vec![
            "run".to_owned(),
            STEAM_FLATPAK_APP_ID.to_owned(),
            "-applaunch".to_owned(),
            appid.to_owned(),
        ];
        assert(texts(args@) =~= seq!["run"@, STEAM_FLATPAK_APP_ID@, "-applaunch"@, appid@]);
        return Ok(CommandLine { program: "flatpak".to_owned(), args });
    }
    if can_open_urls {
        let args = vec![crate::text::concat2("steam://rungameid/", appid)];
        assert(texts(args@) =~= seq!["steam://rungameid/"@ + appid@]);
        return Ok(CommandLine { program: "open".to_owned(), args });
    }
    Err("Steam is not installed or not on PATH.".to_owned())
}

/// The message for a Steam launch that exited unsuccessfully.
pub fn steam_exit_message(exit_code: Option<i32>) -> (r: String)
    ensures
        r@ == "Steam launch exited with non-zero status: "@ + exit_code_spec(exit_code),
{
    let code = exit_code_text(exit_code);
    crate::text::concat2("Steam launch exited with non-zero status: ", code.as_str())
}

} // verus!
