//! The launcher's settings: where emulation data is synced to, and how the launcher
//! window is shown; their defaults, how stored values are read, and how new values are
//! checked before they are stored.
use vstd::prelude::*;

use crate::json::{
    bool_of, json_parse, json_pretty, lemma_member_after_set, lemma_object_view, lemma_set_then_found, member_from, members_view, parse_json,
    put_members, section_member, section_value, take_member, text_of, text_value,
    to_string_pretty, with_member, with_members, JsonData, JsonValue,
};
use crate::text::{chars_of, lemma_trim_idempotent, trim_seq, trim_str};

verus! {

broadcast use vstd::string::group_string_axioms;

/// The file, in the launcher's directory, that stores the settings.
pub const SETTINGS_FILE_NAME: &'static str = "settings.json";

/// Where ROMs are synced to unless the settings say otherwise.
pub const DEFAULT_REMOTE_ROMS_ROOT_DIR: &'static str = "/mnt/storage/OneDrive/Apps/Games/Emulators/ROMs";

/// Where saves are synced to unless the settings say otherwise.
pub const DEFAULT_REMOTE_SAVES_ROOT_DIR: &'static str = "/mnt/storage/OneDrive/Apps/Games/Emulators/Saves";

/// The remote directories that emulation ROMs and saves are synced with.
#[derive(Clone, Debug)]
pub struct EmulationRemotePaths {
    pub roms_root_dir: String,
    pub saves_root_dir: String,
}

/// How the launcher window is shown: full screen, maximized, or neither (never both).
#[derive(Clone, Copy, Debug)]
pub struct LauncherDisplaySettings {
    pub fullscreen_enabled: bool,
    pub maximized_enabled: bool,
}

/// The remote directories used when the settings name none.
pub fn default_emulation_remote_paths() -> (r: EmulationRemotePaths)
    ensures
        r.roms_root_dir@ == DEFAULT_REMOTE_ROMS_ROOT_DIR@,
        r.saves_root_dir@ == DEFAULT_REMOTE_SAVES_ROOT_DIR@,
{
    EmulationRemotePaths {
        roms_root_dir: DEFAULT_REMOTE_ROMS_ROOT_DIR.to_owned(),
        saves_root_dir: DEFAULT_REMOTE_SAVES_ROOT_DIR.to_owned(),
    }
}

/// The window settings used when the settings name none: neither full screen nor
/// maximized.
pub fn default_launcher_display_settings() -> (r: LauncherDisplaySettings)
    ensures
        !r.fullscreen_enabled,
        !r.maximized_enabled,
{
    LauncherDisplaySettings { fullscreen_enabled: false, maximized_enabled: false }
}

/// A stored directory setting, when it is text that is not blank, trimmed; else the
/// default.
pub open spec fn stored_dir_or(value: Option<Seq<char>>, default: Seq<char>) -> Seq<char> {
    match value {
        Some(v) => if trim_seq(v).len() > 0 {
            trim_seq(v)
        } else {
            default
        },
        None => default,
    }
}

/// The contents of an optional string.
pub open spec fn opt_view(v: Option<String>) -> Option<Seq<char>> {
    match v {
        Some(s) => Some(s@),
        None => None,
    }
}

/// A stored directory setting, or the default.
fn dir_setting_or(value: Option<String>, default: &str) -> (r: String)
    ensures
        r@ == stored_dir_or(opt_view(value), default@),
{
    match value {
        Some(v) => {
            let t = trim_str(v.as_str());
            if chars_of(t.as_str()).len() > 0 {
                t
            } else {
                default.to_owned()
            }
        },
        None => default.to_owned(),
    }
}

/// The remote directories that the stored settings name: `roms_root_dir` and
/// `saves_root_dir` are the stored text values of the two settings, when they are text;
/// each that is missing or blank falls back to its default.
pub fn emulation_remote_paths_from(roms_root_dir: Option<String>, saves_root_dir: Option<String>) -> (r:
    EmulationRemotePaths)
    ensures
        r.roms_root_dir@ == stored_dir_or(opt_view(roms_root_dir), DEFAULT_REMOTE_ROMS_ROOT_DIR@),
        r.saves_root_dir@ == stored_dir_or(opt_view(saves_root_dir), DEFAULT_REMOTE_SAVES_ROOT_DIR@),
{
    EmulationRemotePaths {
        roms_root_dir: dir_setting_or(roms_root_dir, DEFAULT_REMOTE_ROMS_ROOT_DIR),
        saves_root_dir: dir_setting_or(saves_root_dir, DEFAULT_REMOTE_SAVES_ROOT_DIR),
    }
}

/// The window settings read from stored boolean values (each present only when it is a
/// boolean): a missing one is off, and when both are on, full screen wins.
pub open spec fn display_from_stored(fullscreen: Option<bool>, maximized: Option<bool>) -> (bool, bool) {
    let f = fullscreen == Some(true);
    (f, maximized == Some(true) && !f)
}

/// The window settings that the stored settings name.
pub fn launcher_display_settings_from(fullscreen: Option<bool>, maximized: Option<bool>) -> (r:
    LauncherDisplaySettings)
    ensures
        (r.fullscreen_enabled, r.maximized_enabled) == display_from_stored(fullscreen, maximized),
{
    let fullscreen_enabled = match fullscreen {
        Some(b) => b,
        None => false,
    };
    let mut maximized_enabled = match maximized {
        Some(b) => b,
        None => false,
    };
    if fullscreen_enabled && maximized_enabled {
        maximized_enabled = false;
    }
    LauncherDisplaySettings { fullscreen_enabled, maximized_enabled }
}

/// What checking remote directories to store gives: both trimmed, or the message of
/// the first that is blank.
pub open spec fn remote_paths_to_store(roms_root_dir: Seq<char>, saves_root_dir: Seq<char>) -> Result<
    (Seq<char>, Seq<char>),
    Seq<char>,
> {
    if trim_seq(roms_root_dir).len() == 0 {
        Err("Remote ROM root path cannot be empty"@)
    } else if trim_seq(saves_root_dir).len() == 0 {
        Err("Remote save root path cannot be empty"@)
    } else {
        Ok((trim_seq(roms_root_dir), trim_seq(saves_root_dir)))
    }
}

/// The remote directories to store, trimmed; refused when either is blank.
pub fn normalize_emulation_remote_paths(roms_root_dir: &str, saves_root_dir: &str) -> (r: Result<
    EmulationRemotePaths,
    String,
>)
    ensures
        match remote_paths_to_store(roms_root_dir@, saves_root_dir@) {
            Ok(p) => r matches Ok(v) && (v.roms_root_dir@, v.saves_root_dir@) == p,
            Err(m) => r matches Err(e) && e@ == m,
        },
{
    let roms = trim_str(roms_root_dir);
    if chars_of(roms.as_str()).len() == 0 {
        return Err("Remote ROM root path cannot be empty".to_owned());
    }
    let saves = trim_str(saves_root_dir);
    if chars_of(saves.as_str()).len() == 0 {
        return Err("Remote save root path cannot be empty".to_owned());
    }
    Ok(EmulationRemotePaths { roms_root_dir: roms, saves_root_dir: saves })
}

/// The window settings to store: maximized is dropped when full screen is on.
pub open spec fn display_to_store(fullscreen: bool, maximized: bool) -> (bool, bool) {
    (fullscreen, maximized && !fullscreen)
}

/// The window settings to store.
pub fn normalize_launcher_display_settings(fullscreen_enabled: bool, maximized_enabled: bool) -> (r:
    LauncherDisplaySettings)
    ensures
        (r.fullscreen_enabled, r.maximized_enabled) == display_to_store(
            fullscreen_enabled,
            maximized_enabled,
        ),
{
    LauncherDisplaySettings {
        fullscreen_enabled,
        maximized_enabled: if fullscreen_enabled {
            false
        } else {
            maximized_enabled
        },
    }
}

/// Window settings that are stored read back as they were stored.
pub proof fn lemma_display_settings_round_trip(fullscreen: bool, maximized: bool)
    ensures
        ({
            let stored = display_to_store(fullscreen, maximized);
            display_from_stored(Some(stored.0), Some(stored.1)) == stored
        }),
{
}

/// Remote directories that are stored read back as they were stored.
pub proof fn lemma_remote_paths_round_trip(roms_root_dir: Seq<char>, saves_root_dir: Seq<char>)
    requires
        remote_paths_to_store(roms_root_dir, saves_root_dir) is Ok,
    ensures
        ({
            let stored = remote_paths_to_store(roms_root_dir, saves_root_dir)->Ok_0;
            &&& stored_dir_or(Some(stored.0), DEFAULT_REMOTE_ROMS_ROOT_DIR@) == stored.0
            &&& stored_dir_or(Some(stored.1), DEFAULT_REMOTE_SAVES_ROOT_DIR@) == stored.1
        }),
{
    crate::text::lemma_trim_idempotent(roms_root_dir);
    crate::text::lemma_trim_idempotent(saves_root_dir);
}

// ---------------------------------------------------------------------------
// The settings file
// ---------------------------------------------------------------------------

/// The contents of an optional text.
pub open spec fn opt_str(v: Option<&str>) -> Option<Seq<char>> {
    match v {
        Some(s) => Some(s@),
        None => None,
    }
}

/// What the settings file holds: nothing when it is missing or blank, else what
/// reading it as JSON gives.
pub open spec fn settings_document(contents: Option<Seq<char>>) -> Option<Result<JsonData, Seq<char>>> {
    match contents {
        None => None,
        Some(t) => if trim_seq(t).len() == 0 {
            None
        } else {
            Some(json_parse(t))
        },
    }
}

/// The JSON value of a settings file that holds something.
fn read_settings(contents: Option<&str>) -> (r: Option<Result<JsonValue, String>>)
    ensures
        match settings_document(opt_str(contents)) {
            None => r is None,
            Some(Ok(d)) => r matches Some(Ok(v)) && v@ == d,
            Some(Err(m)) => r matches Some(Err(e)) && e@ == m,
        },
{
    match contents {
        None => None,
        Some(t) => {
            if chars_of(trim_str(t).as_str()).len() == 0 {
                None
            } else {
                Some(parse_json(t))
            }
        },
    }
}

/// The remote directories that a settings file names: the text values `remote_roms_root_dir`
/// and `remote_saves_root_dir` of its `emulation` section, each that is missing or
/// blank replaced by its default (both defaults when the file is missing or blank);
/// refused with the reader's message when the file is no JSON.
pub fn emulation_remote_paths_from_settings(contents: Option<&str>) -> (r: Result<EmulationRemotePaths, String>)
    ensures
        match settings_document(opt_str(contents)) {
            None => r matches Ok(p) && p.roms_root_dir@ == DEFAULT_REMOTE_ROMS_ROOT_DIR@
                && p.saves_root_dir@ == DEFAULT_REMOTE_SAVES_ROOT_DIR@,
            Some(Err(m)) => r matches Err(e) && e@ == m,
            Some(Ok(d)) => r matches Ok(p) && p.roms_root_dir@ == stored_dir_or(
                text_of(section_member(d, "emulation"@, "remote_roms_root_dir"@)),
                DEFAULT_REMOTE_ROMS_ROOT_DIR@,
            ) && p.saves_root_dir@ == stored_dir_or(
                text_of(section_member(d, "emulation"@, "remote_saves_root_dir"@)),
                DEFAULT_REMOTE_SAVES_ROOT_DIR@,
            ),
        },
{
    match read_settings(contents) {
        None => Ok(emulation_remote_paths_from(None, None)),
        Some(Err(e)) => Err(e),
        Some(Ok(doc)) => {
            let roms = text_value(section_value(&doc, "emulation", "remote_roms_root_dir"));
            let saves = text_value(section_value(&doc, "emulation", "remote_saves_root_dir"));
            Ok(emulation_remote_paths_from(roms, saves))
        },
    }
}

/// The window settings that a settings file names: the boolean values `fullscreen` and
/// `maximized` of its `launcher` section (see `display_from_stored`); refused with the
/// reader's message when the file is no JSON.
pub fn launcher_display_settings_from_settings(contents: Option<&str>) -> (r: Result<
    LauncherDisplaySettings,
    String,
>)
    ensures
        match settings_document(opt_str(contents)) {
            None => r matches Ok(s) && !s.fullscreen_enabled && !s.maximized_enabled,
            Some(Err(m)) => r matches Err(e) && e@ == m,
            Some(Ok(d)) => r matches Ok(s) && (s.fullscreen_enabled, s.maximized_enabled)
                == display_from_stored(
                bool_of(section_member(d, "launcher"@, "fullscreen"@)),
                bool_of(section_member(d, "launcher"@, "maximized"@)),
            ),
        },
{
    match read_settings(contents) {
        None => Ok(launcher_display_settings_from(None, None)),
        Some(Err(e)) => Err(e),
        Some(Ok(doc)) => {
            let fullscreen = match section_value(&doc, "launcher", "fullscreen") {
                Some(v) => v.as_bool(),
                None => None,
            };
            let maximized = match section_value(&doc, "launcher", "maximized") {
                Some(v) => v.as_bool(),
                None => None,
            };
            Ok(launcher_display_settings_from(fullscreen, maximized))
        },
    }
}

/// The members of the settings file's top-level object: none when the file is missing,
/// blank, no JSON, or holds something other than an object.
pub open spec fn settings_members(contents: Option<Seq<char>>) -> Seq<(Seq<char>, JsonData)> {
    match settings_document(contents) {
        Some(Ok(JsonData::Object(ms))) => ms,
        _ => Seq::empty(),
    }
}

/// The members of the section `section`: none when it is missing or no object.
pub open spec fn section_members(ms: Seq<(Seq<char>, JsonData)>, section: Seq<char>) -> Seq<
    (Seq<char>, JsonData),
> {
    match member_from(ms, section, 0) {
        Some(JsonData::Object(s)) => s,
        _ => Seq::empty(),
    }
}

/// The settings after the values `kvs` are set in the section `section`: every other
/// member of the section and every other top-level member is kept.
pub open spec fn settings_with_section_spec(
    contents: Option<Seq<char>>,
    section: Seq<char>,
    kvs: Seq<(Seq<char>, JsonData)>,
) -> JsonData {
    let ms = settings_members(contents);
    JsonData::Object(
        with_member(ms, section, JsonData::Object(with_members(section_members(ms, section), kvs))),
    )
}

/// The settings of the file `existing` with the values `values` set in the section
/// `section`.
pub fn settings_with_section(existing: Option<&str>, section: &str, values: Vec<(String, JsonValue)>) -> (r:
    JsonValue)
    ensures
        r@ == settings_with_section_spec(opt_str(existing), section@, members_view(values@)),
{
    let members: Vec<(String, JsonValue)> = match read_settings(existing) {
        Some(Ok(JsonValue::Object(ms))) => {
            proof {
                lemma_object_view(ms);
            }
            ms
        },
        _ => {
            let e: Vec<(String, JsonValue)> = Vec::new();
            assert(members_view(e@) =~= Seq::<(Seq<char>, JsonData)>::empty());
            e
        },
    };
    let ghost ms = members_view(members@);
    assert(ms == settings_members(opt_str(existing)));
    let (rest, found) = take_member(members, section);
    let current: Vec<(String, JsonValue)> = match found {
        Some(JsonValue::Object(s)) => {
            proof {
                lemma_object_view(s);
            }
            s
        },
        _ => {
            let e: Vec<(String, JsonValue)> = Vec::new();
            assert(members_view(e@) =~= Seq::<(Seq<char>, JsonData)>::empty());
            e
        },
    };
    assert(members_view(current@) == section_members(ms, section@));
    let ghost kvs = members_view(values@);
    let updated = put_members(current, values);
    proof {
        lemma_object_view(updated);
    }
    let mut all = rest;
    let ghost kept = members_view(all@);
    all.push((section.to_owned(), JsonValue::Object(updated)));
    assert(members_view(all@) =~= kept.push(
        (section@, JsonData::Object(with_members(section_members(ms, section@), kvs))),
    ));
    proof {
        lemma_object_view(all);
    }
    JsonValue::Object(all)
}

/// The two members that store the remote directories.
pub open spec fn remote_paths_members(roms: Seq<char>, saves: Seq<char>) -> Seq<(Seq<char>, JsonData)> {
    seq![
        ("remote_roms_root_dir"@, JsonData::Text(roms)),
        ("remote_saves_root_dir"@, JsonData::Text(saves)),
    ]
}

/// Saving remote directories: both trimmed, and the text of the settings file
/// `existing` with them set in its `emulation` section; refused when either is blank.
pub fn save_emulation_remote_paths(existing: Option<&str>, roms_root_dir: &str, saves_root_dir: &str) -> (r:
    Result<(EmulationRemotePaths, String), String>)
    ensures
        match remote_paths_to_store(roms_root_dir@, saves_root_dir@) {
            Err(m) => r matches Err(e) && e@ == m,
            Ok(p) => r matches Ok(out) && (out.0.roms_root_dir@, out.0.saves_root_dir@) == p
                && out.1@ == json_pretty(
                settings_with_section_spec(
                    opt_str(existing),
                    "emulation"@,
                    remote_paths_members(p.0, p.1),
                ),
            ),
        },
{
    let paths = normalize_emulation_remote_paths(roms_root_dir, saves_root_dir)?;
    let mut values: Vec<(String, JsonValue)> = Vec::new();
    values.push(("remote_roms_root_dir".to_owned(), JsonValue::Text(paths.roms_root_dir.clone())));
    values.push(("remote_saves_root_dir".to_owned(), JsonValue::Text(paths.saves_root_dir.clone())));
    assert(members_view(values@) =~= remote_paths_members(paths.roms_root_dir@, paths.saves_root_dir@));
    let doc = settings_with_section(existing, "emulation", values);
    let text = to_string_pretty(&doc);
    Ok((paths, text))
}

/// The two members that store the window settings.
pub open spec fn display_members(fullscreen: bool, maximized: bool) -> Seq<(Seq<char>, JsonData)> {
    seq![("fullscreen"@, JsonData::Bool(fullscreen)), ("maximized"@, JsonData::Bool(maximized))]
}

/// Saving window settings: the settings to store (see `display_to_store`), and the text
/// of the settings file `existing` with them set in its `launcher` section.
pub fn save_launcher_display_settings(existing: Option<&str>, fullscreen_enabled: bool, maximized_enabled: bool) -> (r:
    (LauncherDisplaySettings, String))
    ensures
        (r.0.fullscreen_enabled, r.0.maximized_enabled) == display_to_store(
            fullscreen_enabled,
            maximized_enabled,
        ),
        r.1@ == json_pretty(
            settings_with_section_spec(
                opt_str(existing),
                "launcher"@,
                display_members(r.0.fullscreen_enabled, r.0.maximized_enabled),
            ),
        ),
{
    let settings = normalize_launcher_display_settings(fullscreen_enabled, maximized_enabled);
    let mut values: Vec<(String, JsonValue)> = Vec::new();
    values.push(("fullscreen".to_owned(), JsonValue::Bool(settings.fullscreen_enabled)));
    values.push(("maximized".to_owned(), JsonValue::Bool(settings.maximized_enabled)));
    assert(members_view(values@) =~= display_members(settings.fullscreen_enabled, settings.maximized_enabled));
    let doc = settings_with_section(existing, "launcher", values);
    let text = to_string_pretty(&doc);
    (settings, text)
}

/// The settings that saving remote directories builds name those directories: read
/// back, its `emulation` section gives exactly the directories that were stored.
pub proof fn lemma_saved_remote_paths_read_back(
    existing: Option<Seq<char>>,
    roms_root_dir: Seq<char>,
    saves_root_dir: Seq<char>,
)
    requires
        remote_paths_to_store(roms_root_dir, saves_root_dir) is Ok,
    ensures
        ({
            let p = remote_paths_to_store(roms_root_dir, saves_root_dir)->Ok_0;
            let d = settings_with_section_spec(existing, "emulation"@, remote_paths_members(p.0, p.1));
            &&& stored_dir_or(
                text_of(section_member(d, "emulation"@, "remote_roms_root_dir"@)),
                DEFAULT_REMOTE_ROMS_ROOT_DIR@,
            ) == p.0
            &&& stored_dir_or(
                text_of(section_member(d, "emulation"@, "remote_saves_root_dir"@)),
                DEFAULT_REMOTE_SAVES_ROOT_DIR@,
            ) == p.1
        }),
{
    let p = remote_paths_to_store(roms_root_dir, saves_root_dir)->Ok_0;
    let ms = settings_members(existing);
    let kvs = remote_paths_members(p.0, p.1);
    let sec = section_members(ms, "emulation"@);
    reveal_strlit("remote_roms_root_dir");
    reveal_strlit("remote_saves_root_dir");
    let k1 = "remote_roms_root_dir"@;
    let k2 = "remote_saves_root_dir"@;
    assert(k1 != k2) by {
        assert(k1[7] != k2[7]);
    }
    assert(kvs.drop_last().drop_last() =~= Seq::<(Seq<char>, JsonData)>::empty());
    assert(kvs.drop_last() =~= seq![(k1, JsonData::Text(p.0))]);
    let body = with_members(sec, kvs);
    let kvs1 = kvs.drop_last();
    assert(with_members(sec, kvs1.drop_last()) == sec);
    assert(kvs1.last() == (k1, JsonData::Text(p.0)));
    assert(with_members(sec, kvs1) == with_member(sec, k1, JsonData::Text(p.0)));
    assert(kvs.last() == (k2, JsonData::Text(p.1)));
    assert(body == with_member(with_member(sec, k1, JsonData::Text(p.0)), k2, JsonData::Text(p.1)));
    lemma_member_after_set(sec, k1, JsonData::Text(p.0), k2, JsonData::Text(p.1));
    lemma_set_then_found(ms, "emulation"@, JsonData::Object(body));
    lemma_trim_idempotent(roms_root_dir);
    lemma_trim_idempotent(saves_root_dir);
}

/// The window settings that saving builds name those settings: read back, its
/// `launcher` section gives exactly the settings that were stored.
pub proof fn lemma_saved_display_settings_read_back(
    existing: Option<Seq<char>>,
    fullscreen: bool,
    maximized: bool,
)
    ensures
        ({
            let stored = display_to_store(fullscreen, maximized);
            let d = settings_with_section_spec(existing, "launcher"@, display_members(stored.0, stored.1));
            display_from_stored(
                bool_of(section_member(d, "launcher"@, "fullscreen"@)),
                bool_of(section_member(d, "launcher"@, "maximized"@)),
            ) == stored
        }),
{
    let stored = display_to_store(fullscreen, maximized);
    let ms = settings_members(existing);
    let kvs = display_members(stored.0, stored.1);
    let sec = section_members(ms, "launcher"@);
    reveal_strlit("fullscreen");
    reveal_strlit("maximized");
    let k1 = "fullscreen"@;
    let k2 = "maximized"@;
    assert(k1 != k2) by {
        assert(k1[0] != k2[0]);
    }
    assert(kvs.drop_last().drop_last() =~= Seq::<(Seq<char>, JsonData)>::empty());
    assert(kvs.drop_last() =~= seq![(k1, JsonData::Bool(stored.0))]);
    let body = with_members(sec, kvs);
    let kvs1 = kvs.drop_last();
    assert(with_members(sec, kvs1.drop_last()) == sec);
    assert(kvs1.last() == (k1, JsonData::Bool(stored.0)));
    assert(with_members(sec, kvs1) == with_member(sec, k1, JsonData::Bool(stored.0)));
    assert(kvs.last() == (k2, JsonData::Bool(stored.1)));
    assert(body == with_member(with_member(sec, k1, JsonData::Bool(stored.0)), k2, JsonData::Bool(stored.1)));
    lemma_member_after_set(sec, k1, JsonData::Bool(stored.0), k2, JsonData::Bool(stored.1));
    lemma_set_then_found(ms, "launcher"@, JsonData::Object(body));
}

} // verus!
