//! Emulation rules: which files are ROMs or save files of a system, how system keys are
//! checked, how launch targets are built, and what syncs and launches check first.
use vstd::prelude::*;

use crate::emulation_target::{encode_spec, normalize_key_seq, EmulationLaunchTarget};
use crate::emulator_systems::{
    discoverable_system_keys, emulator_system, emulator_system_spec, seqs_contain, strs_view,
    system_table,
};
use crate::text::{
    append_str, chars_contains, chars_eq, chars_of, concat3, contains_seq, lacks_char,
    string_of, string_of_range, to_lowercase, trim_seq, trim_str, unicode_lowercase,
};

verus! {

broadcast use vstd::string::group_string_axioms;

/// What installing the emulation runtime and cores achieved.
#[derive(Clone, Copy, Debug)]
pub struct EmulationInstallReport {
    pub runtime_ready: bool,
    pub cores_ready: usize,
}

// ---------------------------------------------------------------------------
// File names
// ---------------------------------------------------------------------------

/// What `Path::file_name` gives for the path written `path`: its last normal component,
/// or nothing when the path ends in `..` or has no component.
pub uninterp spec fn path_file_name(path: Seq<char>) -> Option<Seq<char>>;

/// `std::path::Path::file_name`, for a path given as text. The contract names the
/// result: how std splits a path into components is not written out here.
#[verifier::external_body]
pub(crate) fn file_name_of(path: &str) -> (r: Option<String>)
    ensures
        match r {
            Some(n) => path_file_name(path@) == Some(n@),
            None => path_file_name(path@) is None,
        },
{
    match std::path::Path::new(path).file_name() {
        Some(name) => Some(name.to_string_lossy().into_owned()),
        None => None,
    }
}

/// Whether `i` is the position of the last `c` in `s`.
pub open spec fn is_last_index_of(s: Seq<char>, c: char, i: int) -> bool {
    &&& 0 <= i < s.len()
    &&& s[i] == c
    &&& forall|j: int| i < j < s.len() ==> #[trigger] s[j] != c
}

/// The position of the last `.` of a file name that has one.
pub open spec fn last_dot(name: Seq<char>) -> int {
    choose|i: int| is_last_index_of(name, '.', i)
}

/// The extension of a file name, as `Path::extension` documents it: nothing when the
/// name has no `.`, or only a leading one; else what follows the last `.`.
pub open spec fn name_extension(name: Seq<char>) -> Option<Seq<char>> {
    if name == ".."@ || lacks_char(name, '.') || last_dot(name) == 0 {
        None
    } else {
        Some(name.skip(last_dot(name) + 1))
    }
}

/// The stem of a file name, as `Path::file_stem` documents it: the whole name when it
/// has no `.`, or only a leading one; else what precedes the last `.`.
pub open spec fn name_stem(name: Seq<char>) -> Seq<char> {
    if name == ".."@ || lacks_char(name, '.') || last_dot(name) == 0 {
        name
    } else {
        name.take(last_dot(name))
    }
}

/// The position of the last `c` in `v`.
fn rfind_char(v: &Vec<char>, c: char) -> (r: Option<usize>)
    ensures
        match r {
            Some(i) => is_last_index_of(v@, c, i as int),
            None => lacks_char(v@, c),
        },
{
    let mut i: usize = v.len();
    while i > 0
        invariant
            i <= v.len(),
            forall|j: int| i <= j < v.len() ==> #[trigger] v@[j] != c,
        decreases i,
    {
        if v[i - 1] == c {
            return Some(i - 1);
        }
        i -= 1;
    }
    None
}

/// Whether the name is `..`.
fn is_parent_name(v: &Vec<char>) -> (r: bool)
    ensures
        r == (v@ == ".."@),
{
    proof {
        reveal_strlit("..");
    }
    if v.len() == 2 && v[0] == '.' && v[1] == '.' {
        assert(v@ =~= ".."@);
        true
    } else {
        false
    }
}

/// The extension of the file name `name`.
pub fn file_name_extension(name: &str) -> (r: Option<String>)
    ensures
        match r {
            Some(e) => name_extension(name@) == Some(e@),
            None => name_extension(name@) is None,
        },
{
    let v = chars_of(name);
    if is_parent_name(&v) {
        return None;
    }
    match rfind_char(&v, '.') {
        None => None,
        Some(i) => {
            assert(is_last_index_of(v@, '.', last_dot(v@)));
            assert(last_dot(v@) == i) by {
                let k = last_dot(v@);
                if k < i {
                    assert(v@[i as int] == '.');
                } else if k > i {
                    assert(v@[k] == '.');
                }
            }
            if i == 0 {
                None
            } else {
                Some(string_of_range(&v, i + 1, v.len()))
            }
        },
    }
}

/// The stem of the file name `name`.
pub fn file_name_stem(name: &str) -> (r: String)
    ensures
        r@ == name_stem(name@),
{
    let v = chars_of(name);
    if is_parent_name(&v) {
        return string_of(&v);
    }
    match rfind_char(&v, '.') {
        None => string_of(&v),
        Some(i) => {
            assert(is_last_index_of(v@, '.', last_dot(v@)));
            assert(last_dot(v@) == i) by {
                let k = last_dot(v@);
                if k < i {
                    assert(v@[i as int] == '.');
                } else if k > i {
                    assert(v@[k] == '.');
                }
            }
            if i == 0 {
                string_of(&v)
            } else {
                string_of_range(&v, 0, i)
            }
        },
    }
}

// ---------------------------------------------------------------------------
// ROM and save files
// ---------------------------------------------------------------------------

/// Whether the file at `path` is a ROM of `system`: its extension, lowercased, is one
/// of the system's ROM extensions.
pub open spec fn is_supported_rom_spec(system: Seq<char>, path: Seq<char>) -> bool {
    match path_file_name(path) {
        None => false,
        Some(name) => match name_extension(name) {
            None => false,
            Some(ext) => match emulator_system_spec(system) {
                None => false,
                Some(s) => seqs_contain(s.rom_extensions, unicode_lowercase(ext)),
            },
        },
    }
}

/// Whether `file_path` is a ROM of `system`.
pub fn is_supported_rom_for_system(system: &str, file_path: &str) -> (r: bool)
    ensures
        r == is_supported_rom_spec(system@, file_path@),
{
    let name = match file_name_of(file_path) {
        Some(n) => n,
        None => {
            return false;
        },
    };
    let extension = match file_name_extension(name.as_str()) {
        Some(e) => e,
        None => {
            return false;
        },
    };
    let lowered = chars_of(to_lowercase(extension.as_str()).as_str());
    let spec = match emulator_system(system) {
        Some(s) => s,
        None => {
            return false;
        },
    };
    let mut i: usize = 0;
    while i < spec.rom_extensions.len()
        invariant
            i <= spec.rom_extensions@.len(),
            path_file_name(file_path@) == Some(name@),
            name_extension(name@) == Some(extension@),
            lowered@ == unicode_lowercase(extension@),
            emulator_system_spec(system@) == Some(spec@),
            forall|j: int| 0 <= j < i ==> strs_view(spec.rom_extensions@)[j] != lowered@,
        decreases spec.rom_extensions.len() - i,
    {
        if chars_eq(&chars_of(spec.rom_extensions[i]), &lowered) {
            assert(strs_view(spec.rom_extensions@)[i as int] == lowered@);
            return true;
        }
        i += 1;
    }
    false
}

/// Whether the file at `path` takes part in a save sync: every file but save states
/// (a lowercased name containing `.state`); a path without a file name takes part.
pub open spec fn is_syncable_save_spec(path: Seq<char>) -> bool {
    match path_file_name(path) {
        None => true,
        Some(name) => !contains_seq(unicode_lowercase(name), ".state"@),
    }
}

/// Whether `file_path` takes part in a save sync.
pub fn is_syncable_save_file(file_path: &str) -> (r: bool)
    ensures
        r == is_syncable_save_spec(file_path@),
{
    match file_name_of(file_path) {
        None => true,
        Some(name) => {
            let lowered = chars_of(to_lowercase(name.as_str()).as_str());
            let marker = chars_of(".state");
            !chars_contains(&lowered, &marker)
        },
    }
}

/// Whether saves of `system` can be synced.
pub fn is_save_sync_supported_for_system(system: &str) -> (r: bool)
    ensures
        r == match emulator_system_spec(system@) {
            Some(s) => s.supports_save_sync,
            None => false,
        },
{
    match emulator_system(system) {
        Some(spec) => spec.supports_save_sync,
        None => false,
    }
}

/// The keys of the systems whose ROM directories discovery searches.
pub fn discoverable_systems() -> (r: Vec<&'static str>)
    ensures
        strs_view(r@) == Seq::new(system_table().len(), |i: int| system_table()[i].system_key),
{
    discoverable_system_keys()
}

// ---------------------------------------------------------------------------
// System keys and launch targets
// ---------------------------------------------------------------------------

/// Whether `c` may stand in a system key: an ASCII letter or digit, `_` or `-`.
pub open spec fn is_key_char(c: char) -> bool {
    ('0' <= c <= '9') || ('a' <= c <= 'z') || ('A' <= c <= 'Z') || c == '_' || c == '-'
}

/// What checking a system key gives: the key trimmed and lowercased, or the message of
/// what is wrong with it.
pub open spec fn normalize_system_key_spec(system: Seq<char>) -> Result<Seq<char>, Seq<char>> {
    let n = unicode_lowercase(trim_seq(system));
    if n.len() == 0 {
        Err("System key cannot be empty"@)
    } else if forall|i: int| 0 <= i < n.len() ==> is_key_char(#[trigger] n[i]) {
        Ok(n)
    } else {
        Err("System key '"@ + system + "' contains invalid characters"@)
    }
}

/// A system key trimmed and lowercased; refused when that leaves nothing, or leaves a
/// character other than an ASCII letter or digit, `_` or `-`.
pub fn normalize_system_key(system: &str) -> (r: Result<String, String>)
    ensures
        match normalize_system_key_spec(system@) {
            Ok(k) => r matches Ok(s) && s@ == k,
            Err(m) => r matches Err(e) && e@ == m,
        },
{
    let trimmed = trim_str(system);
    let normalized = to_lowercase(trimmed.as_str());
    let v = chars_of(normalized.as_str());
    if v.len() == 0 {
        return Err("System key cannot be empty".to_owned());
    }
    let mut i: usize = 0;
    while i < v.len()
        invariant
            i <= v.len(),
            v@ == unicode_lowercase(trim_seq(system@)),
            forall|j: int| 0 <= j < i ==> is_key_char(#[trigger] v@[j]),
        decreases v.len() - i,
    {
        let c = v[i];
        if !(('0' <= c && c <= '9') || ('a' <= c && c <= 'z') || ('A' <= c && c <= 'Z') || c
            == '_' || c == '-') {
            assert(!is_key_char(v@[i as int]));
            return Err(concat3("System key '", system, "' contains invalid characters"));
        }
        i += 1;
    }
    Ok(normalized)
}

/// The message for a system that has no supported emulator.
pub open spec fn unsupported_system_message(system: Seq<char>) -> Seq<char> {
    "Unsupported emulator system: "@ + system
}

/// `"Unsupported emulator system: {system}"`.
pub fn unsupported_system_error(system: &str) -> (r: String)
    ensures
        r@ == unsupported_system_message(system@),
{
    let mut v: Vec<char> = Vec::new();
    append_str(&mut v, "Unsupported emulator system: ");
    append_str(&mut v, system);
    string_of(&v)
}

/// What building a launch target gives: the encoded RetroArch target for the checked
/// system key and the ROM path, or the message of what is wrong.
pub open spec fn build_launch_target_spec(system: Seq<char>, rom_path: Seq<char>) -> Result<
    Seq<char>,
    Seq<char>,
> {
    match normalize_system_key_spec(system) {
        Err(m) => Err(m),
        Ok(key) => if emulator_system_spec(key) is None {
            Err(unsupported_system_message(system))
        } else {
            match normalize_key_seq(key) {
                None => Err("System key cannot be empty"@),
                Some(k) => if rom_path.len() == 0 {
                    Err("ROM path cannot be empty"@)
                } else {
                    Ok(
                        encode_spec(
                            crate::emulation_target::EmulationLaunchTargetView {
                                backend: crate::emulation_target::EmulationBackend::Retroarch,
                                system_key: k,
                                rom_path,
                            },
                        ),
                    )
                },
            }
        },
    }
}

/// The launch target of the ROM at `rom_path` (already made canonical where it could
/// be) for `system`.
pub fn build_launch_target(system: &str, rom_path: &str) -> (r: Result<String, String>)
    ensures
        match build_launch_target_spec(system@, rom_path@) {
            Ok(t) => r matches Ok(s) && s@ == t,
            Err(m) => r matches Err(e) && e@ == m,
        },
{
    let key = match normalize_system_key(system) {
        Ok(k) => k,
        Err(e) => {
            return Err(e);
        },
    };
    if emulator_system(key.as_str()).is_none() {
        return Err(unsupported_system_error(system));
    }
    let target = match EmulationLaunchTarget::new_retroarch(key, rom_path.to_owned()) {
        Ok(t) => t,
        Err(e) => {
            return Err(e);
        },
    };
    target.encode()
}

// ---------------------------------------------------------------------------
// Sync and launch checks
// ---------------------------------------------------------------------------

/// What checking a save sync request gives: the checked system key, or the message of
/// why saves of that system cannot be synced.
pub open spec fn save_sync_key_spec(system: Seq<char>) -> Result<Seq<char>, Seq<char>> {
    match normalize_system_key_spec(system) {
        Err(m) => Err(m),
        Ok(key) => if match emulator_system_spec(key) {
            Some(s) => s.supports_save_sync,
            None => false,
        } {
            Ok(key)
        } else {
            Err("Save sync is not supported for system: "@ + key)
        },
    }
}

/// The system key of a save sync request, refused for a system whose saves cannot be
/// synced.
pub fn save_sync_system_key(system: &str) -> (r: Result<String, String>)
    ensures
        match save_sync_key_spec(system@) {
            Ok(k) => r matches Ok(s) && s@ == k,
            Err(m) => r matches Err(e) && e@ == m,
        },
{
    let key = normalize_system_key(system)?;
    if !is_save_sync_supported_for_system(key.as_str()) {
        return Err(crate::text::concat2("Save sync is not supported for system: ", key.as_str()));
    }
    Ok(key)
}

/// The message for a sync whose source directory is missing.
pub fn missing_source_directory_message(path: &str) -> (r: String)
    ensures
        r@ == "Source ROM directory does not exist: "@ + path@,
{
    crate::text::concat2("Source ROM directory does not exist: ", path)
}

/// The message for a launch target whose ROM file is missing.
pub fn missing_rom_message(path: &str) -> (r: String)
    ensures
        r@ == "ROM file does not exist: "@ + path@,
{
    crate::text::concat2("ROM file does not exist: ", path)
}

/// Checks that the ROM of a launch target is a ROM of its system.
pub fn check_rom_for_launch(system: &str, rom_path: &str) -> (r: Result<(), String>)
    ensures
        is_supported_rom_spec(system@, rom_path@) ==> r is Ok,
        !is_supported_rom_spec(system@, rom_path@) ==> (r matches Err(e) && e@
            == "ROM extension is not supported for system '"@ + system@ + "': "@ + rom_path@),
{
    if is_supported_rom_for_system(system, rom_path) {
        return Ok(());
    }
    let mut v: Vec<char> = Vec::new();
    append_str(&mut v, "ROM extension is not supported for system '");
    append_str(&mut v, system);
    append_str(&mut v, "': ");
    append_str(&mut v, rom_path);
    Err(string_of(&v))
}

/// The core file of the system that `system` names; refused for a system without one.
pub fn core_file_for_system(system: &str) -> (r: Result<&'static str, String>)
    ensures
        match emulator_system_spec(system@) {
            Some(s) => r matches Ok(f) && f@ == s.core_file,
            None => r matches Err(e) && e@ == unsupported_system_message(system@),
        },
{
    match emulator_system(system) {
        Some(spec) => Ok(spec.core_file),
        None => Err(unsupported_system_error(system)),
    }
}

} // verus!
