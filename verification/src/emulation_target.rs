//! Emulator launch targets: `backend|system|rom path`, as stored in the registry for
//! emulator games.
use vstd::prelude::*;

use crate::text::{
    after_char, before_char, chars_eq, chars_of, concat3, lacks_char, lemma_index_of_char_concat,
    split_once_char, string_of, to_lowercase, trim_chars, trim_seq, trim_str, unicode_lowercase,
    append_str,
};

verus! {

broadcast use vstd::string::group_string_axioms;

/// The program that runs an emulated game.
#[derive(Clone, Copy, Debug, PartialEq, Eq, Structural)]
pub enum EmulationBackend {
    Retroarch,
}

/// The name of a backend in a launch target.
pub open spec fn backend_name(backend: EmulationBackend) -> Seq<char> {
    match backend {
        EmulationBackend::Retroarch => "retroarch"@,
    }
}

/// The backend that a launch target names: its name, trimmed and lowercased.
pub open spec fn parse_backend_seq(value: Seq<char>) -> Option<EmulationBackend> {
    if unicode_lowercase(trim_seq(value)) == "retroarch"@ {
        Some(EmulationBackend::Retroarch)
    } else {
        None
    }
}

impl EmulationBackend {
    /// The name of this backend in a launch target.
    pub fn as_str(self) -> (r: &'static str)
        ensures
            r@ == backend_name(self),
    {
        match self {
            EmulationBackend::Retroarch => "retroarch",
        }
    }

    /// The backend that `value` names, ignoring surrounding whitespace and case.
    pub fn parse(value: &str) -> (r: Option<EmulationBackend>)
        ensures
            r == parse_backend_seq(value@),
    {
        let t = trim_str(value);
        let lowered = to_lowercase(t.as_str());
        let lv = chars_of(lowered.as_str());
        let expected = chars_of("retroarch");
        if chars_eq(&lv, &expected) {
            Some(EmulationBackend::Retroarch)
        } else {
            None
        }
    }
}

/// A system key trimmed and lowercased, when that leaves something.
pub open spec fn normalize_key_seq(system: Seq<char>) -> Option<Seq<char>> {
    let n = unicode_lowercase(trim_seq(system));
    if n.len() == 0 {
        None
    } else {
        Some(n)
    }
}

/// A system key trimmed and lowercased, or `None` when that leaves nothing.
pub fn normalize_key(system: &str) -> (r: Option<String>)
    ensures
        match r {
            Some(k) => normalize_key_seq(system@) == Some(k@),
            None => normalize_key_seq(system@) is None,
        },
{
    let t = trim_str(system);
    let lowered = to_lowercase(t.as_str());
    let lv = chars_of(lowered.as_str());
    if lv.len() == 0 {
        None
    } else {
        Some(lowered)
    }
}

/// A game to run under an emulator: the backend, the system key (trimmed, lowercased,
/// non-empty) and the path of the ROM (non-empty).
#[derive(Clone, Debug)]
pub struct EmulationLaunchTarget {
    backend: EmulationBackend,
    system_key: String,
    rom_path: String,
}

/// The contents of an emulator launch target.
pub struct EmulationLaunchTargetView {
    pub backend: EmulationBackend,
    pub system_key: Seq<char>,
    pub rom_path: Seq<char>,
}

impl View for EmulationLaunchTarget {
    type V = EmulationLaunchTargetView;

    closed spec fn view(&self) -> EmulationLaunchTargetView {
        EmulationLaunchTargetView {
            backend: self.backend,
            system_key: self.system_key@,
            rom_path: self.rom_path@,
        }
    }
}

/// The text form of a launch target: `backend|system|rom path`.
pub open spec fn encode_spec(t: EmulationLaunchTargetView) -> Seq<char> {
    backend_name(t.backend) + seq!['|'] + t.system_key + seq!['|'] + t.rom_path
}

/// What decoding a launch target's text gives: the target, or the message of what is
/// wrong with the text.
pub open spec fn decode_spec(raw: Seq<char>) -> Result<EmulationLaunchTargetView, Seq<char>> {
    let backend_raw = before_char(raw, '|');
    let rest = after_char(raw, '|');
    let system_raw = before_char(rest, '|');
    let rom_raw = after_char(rest, '|');
    match parse_backend_seq(backend_raw) {
        None => Err("Unsupported emulator backend '"@ + backend_raw + "'."@),
        Some(backend) => match normalize_key_seq(system_raw) {
            None => Err("Malformed emulator launch target: missing system key."@),
            Some(key) => if trim_seq(rom_raw).len() == 0 {
                Err("Malformed emulator launch target: missing ROM path."@)
            } else {
                Ok(EmulationLaunchTargetView { backend, system_key: key, rom_path: rom_raw })
            },
        },
    }
}

impl EmulationLaunchTarget {
    /// A launch target for `backend` with the system key normalized; refused when the
    /// key is blank or the ROM path empty.
    pub fn new(backend: EmulationBackend, system_key: String, rom_path: String) -> (r: Result<
        EmulationLaunchTarget,
        String,
    >)
        ensures
            match normalize_key_seq(system_key@) {
                None => r matches Err(e) && e@ == "System key cannot be empty"@,
                Some(key) => if rom_path@.len() == 0 {
                    r matches Err(e) && e@ == "ROM path cannot be empty"@
                } else {
                    r matches Ok(t) && t@ == EmulationLaunchTargetView {
                        backend,
                        system_key: key,
                        rom_path: rom_path@,
                    }
                },
            },
    {
        let key = match normalize_key(system_key.as_str()) {
            Some(k) => k,
            None => {
                return Err("System key cannot be empty".to_owned());
            },
        };
        let rom = chars_of(rom_path.as_str());
        if rom.len() == 0 {
            return Err("ROM path cannot be empty".to_owned());
        }
        Ok(EmulationLaunchTarget { backend, system_key: key, rom_path })
    }

    /// A RetroArch launch target.
    pub fn new_retroarch(system_key: String, rom_path: String) -> (r: Result<
        EmulationLaunchTarget,
        String,
    >)
        ensures
            match normalize_key_seq(system_key@) {
                None => r matches Err(e) && e@ == "System key cannot be empty"@,
                Some(key) => if rom_path@.len() == 0 {
                    r matches Err(e) && e@ == "ROM path cannot be empty"@
                } else {
                    r matches Ok(t) && t@ == EmulationLaunchTargetView {
                        backend: EmulationBackend::Retroarch,
                        system_key: key,
                        rom_path: rom_path@,
                    }
                },
            },
    {
        Self::new(EmulationBackend::Retroarch, system_key, rom_path)
    }

    /// Reads a launch target from its text form `backend|system|rom path` (the ROM path
    /// keeps any further `|`).
    pub fn decode(raw: &str) -> (r: Result<EmulationLaunchTarget, String>)
        ensures
            match decode_spec(raw@) {
                Ok(t) => r matches Ok(x) && x@ == t,
                Err(m) => r matches Err(e) && e@ == m,
            },
    {
        let v = chars_of(raw);
        let (backend_raw, rest) = split_once_char(&v, '|');
        let (system_raw, rom_raw) = split_once_char(&rest, '|');
        let backend_str = string_of(&backend_raw);
        let backend = match EmulationBackend::parse(backend_str.as_str()) {
            Some(b) => b,
            None => {
                return Err(concat3("Unsupported emulator backend '", backend_str.as_str(), "'."));
            },
        };
        let system_str = string_of(&system_raw);
        let system_key = match normalize_key(system_str.as_str()) {
            Some(k) => k,
            None => {
                return Err("Malformed emulator launch target: missing system key.".to_owned());
            },
        };
        let rom_trimmed = trim_chars(&rom_raw);
        if rom_trimmed.len() == 0 {
            return Err("Malformed emulator launch target: missing ROM path.".to_owned());
        }
        Ok(EmulationLaunchTarget { backend, system_key, rom_path: string_of(&rom_raw) })
    }

    /// The text form of this target: `backend|system|rom path`.
    pub fn encode(&self) -> (r: Result<String, String>)
        ensures
            r matches Ok(s) && s@ == encode_spec(self@),
    {
        let mut out: Vec<char> = Vec::new();
        append_str(&mut out, self.backend.as_str());
        out.push('|');
        append_str(&mut out, self.system_key.as_str());
        out.push('|');
        append_str(&mut out, self.rom_path.as_str());
        assert(out@ =~= encode_spec(self@));
        Ok(string_of(&out))
    }

    /// The normalized system key.
    pub fn system_key(&self) -> (r: &str)
        ensures
            r@ == self@.system_key,
    {
        self.system_key.as_str()
    }

    /// The path of the ROM.
    pub fn rom_path(&self) -> (r: &str)
        ensures
            r@ == self@.rom_path,
    {
        self.rom_path.as_str()
    }

    /// The backend.
    pub fn backend(&self) -> (r: EmulationBackend)
        ensures
            r == self@.backend,
    {
        self.backend
    }
}

/// Decoding the text form of a launch target gives the target back, provided its system
/// key holds no `|`, its ROM path is not blank, and trimming and lowercasing leave its
/// backend name and its system key unchanged.
pub proof fn lemma_launch_target_round_trip(t: EmulationLaunchTargetView)
    requires
        lacks_char(t.system_key, '|'),
        trim_seq(t.rom_path).len() > 0,
        parse_backend_seq(backend_name(t.backend)) == Some(t.backend),
        unicode_lowercase(trim_seq(t.system_key)) == t.system_key,
        t.system_key.len() > 0,
    ensures
        decode_spec(encode_spec(t)) == Ok::<EmulationLaunchTargetView, Seq<char>>(t),
{
    let b = backend_name(t.backend);
    reveal_strlit("retroarch");
    assert(lacks_char(b, '|'));
    let rest = t.system_key + seq!['|'] + t.rom_path;
    assert(encode_spec(t) =~= b + seq!['|'] + rest);
    lemma_index_of_char_concat(b, rest, '|');
    lemma_index_of_char_concat(t.system_key, t.rom_path, '|');
}

} // verus!
