//! The runners that launch games, and how an added target is recognised.
use vstd::prelude::*;

use crate::text::{
    all_digits, chars_all_digits, chars_eq, chars_of, chars_starts_with, starts_with_seq, string_of,
    sub_chars, trim_chars, trim_seq,
};

verus! {

broadcast use vstd::string::group_string_axioms;

/// How a saved game is launched.
#[derive(Clone, Copy, PartialEq, Eq, Structural, Debug)]
pub enum RunnerKind {
    /// A bash script, run with `bash <path>`.
    Bash,
    /// A Steam application, launched by its appid.
    Steam,
    /// A ROM run by an emulator, described by an emulator launch target.
    Emulator,
}

/// The name under which a runner kind is stored in the registry.
pub open spec fn runner_kind_name(kind: RunnerKind) -> Seq<char> {
    match kind {
        RunnerKind::Bash => seq!['b', 'a', 's', 'h'],
        RunnerKind::Steam => seq!['s', 't', 'e', 'a', 'm'],
        RunnerKind::Emulator => seq!['e', 'm', 'u', 'l', 'a', 't', 'o', 'r'],
    }
}

/// The runner kind stored under a name, if any.
pub open spec fn runner_kind_from_name(name: Seq<char>) -> Option<RunnerKind> {
    if name == runner_kind_name(RunnerKind::Bash) {
        Some(RunnerKind::Bash)
    } else if name == runner_kind_name(RunnerKind::Steam) {
        Some(RunnerKind::Steam)
    } else if name == runner_kind_name(RunnerKind::Emulator) {
        Some(RunnerKind::Emulator)
    } else {
        None
    }
}

/// Reading back the name of a runner kind gives that kind.
pub proof fn lemma_runner_kind_name_round_trip(kind: RunnerKind)
    ensures
        runner_kind_from_name(runner_kind_name(kind)) == Some(kind),
{
    let b = runner_kind_name(RunnerKind::Bash);
    let s = runner_kind_name(RunnerKind::Steam);
    let e = runner_kind_name(RunnerKind::Emulator);
    assert(b != s) by {
        assert(b.len() != s.len());
    }
    assert(b != e) by {
        assert(b.len() != e.len());
    }
    assert(s != e) by {
        assert(s.len() != e.len());
    }
}

impl RunnerKind {
    /// The name under which this kind is stored.
    pub fn as_str(self) -> (r: &'static str)
        ensures
            r@ == runner_kind_name(self),
    {
        match self {
            RunnerKind::Bash => {
                proof {
                    reveal_strlit("bash");
                }
                "bash"
            },
            RunnerKind::Steam => {
                proof {
                    reveal_strlit("steam");
                }
                "steam"
            },
            RunnerKind::Emulator => {
                proof {
                    reveal_strlit("emulator");
                }
                "emulator"
            },
        }
    }

    /// The kind stored under `value`, if `value` names one.
    pub fn from_str(value: &str) -> (r: Option<RunnerKind>)
        ensures
            r == runner_kind_from_name(value@),
    {
        let v = chars_of(value);
        let bash = chars_of(RunnerKind::Bash.as_str());
        let steam = chars_of(RunnerKind::Steam.as_str());
        let emulator = chars_of(RunnerKind::Emulator.as_str());
        if chars_eq(&v, &bash) {
            Some(RunnerKind::Bash)
        } else if chars_eq(&v, &steam) {
            Some(RunnerKind::Steam)
        } else if chars_eq(&v, &emulator) {
            Some(RunnerKind::Emulator)
        } else {
            None
        }
    }
}

/// A game target after recognising which runner launches it.
pub struct ResolvedTarget {
    pub runner_kind: RunnerKind,
    pub launch_target: String,
}

/// The digits after prefix `p` of `t`, when `t` is `p` followed by digits only.
pub open spec fn digits_after(t: Seq<char>, p: Seq<char>) -> Option<Seq<char>> {
    if starts_with_seq(t, p) && all_digits(t.skip(p.len() as int)) {
        Some(t.skip(p.len() as int))
    } else {
        None
    }
}

/// The Steam appid that an input names: digits alone, or digits after one of the
/// recognised Steam prefixes (tried in order), after trimming the input.
pub open spec fn detect_appid_seq(raw: Seq<char>) -> Option<Seq<char>> {
    let t = trim_seq(raw);
    if t.len() == 0 {
        None
    } else if all_digits(t) {
        Some(t)
    } else if digits_after(t, "steam://rungameid/"@) is Some {
        digits_after(t, "steam://rungameid/"@)
    } else if digits_after(t, "steam://run/"@) is Some {
        digits_after(t, "steam://run/"@)
    } else if digits_after(t, "steam:appid:"@) is Some {
        digits_after(t, "steam:appid:"@)
    } else {
        digits_after(t, "steam-appid:"@)
    }
}

/// The digits after `prefix` in `t`, when `t` is `prefix` followed by digits only.
fn digits_after_prefix(t: &Vec<char>, prefix: &str) -> (r: Option<Vec<char>>)
    ensures
        match r {
            Some(v) => digits_after(t@, prefix@) == Some(v@),
            None => digits_after(t@, prefix@) is None,
        },
{
    let p = chars_of(prefix);
    if !chars_starts_with(t, &p) {
        return None;
    }
    let rest = sub_chars(t, p.len(), t.len());
    assert(rest@ =~= t@.skip(p@.len() as int));
    if chars_all_digits(&rest) {
        Some(rest)
    } else {
        None
    }
}

/// The Steam appid that `raw_input` names, if any.
pub fn detect_appid(raw_input: &str) -> (r: Option<String>)
    ensures
        match r {
            Some(s) => detect_appid_seq(raw_input@) == Some(s@),
            None => detect_appid_seq(raw_input@) is None,
        },
        r matches Some(s) ==> all_digits(s@),
{
    let raw = chars_of(raw_input);
    let t = trim_chars(&raw);
    if t.len() == 0 {
        return None;
    }
    if chars_all_digits(&t) {
        return Some(string_of(&t));
    }
    if let Some(v) = digits_after_prefix(&t, "steam://rungameid/") {
        return Some(string_of(&v));
    }
    if let Some(v) = digits_after_prefix(&t, "steam://run/") {
        return Some(string_of(&v));
    }
    if let Some(v) = digits_after_prefix(&t, "steam:appid:") {
        return Some(string_of(&v));
    }
    if let Some(v) = digits_after_prefix(&t, "steam-appid:") {
        return Some(string_of(&v));
    }
    None
}

/// The runner and launch target for an added game: a Steam appid when `raw_input`
/// names one; otherwise the outcome of resolving `raw_input` as a bash script
/// (`bash_script`, the canonical path of the script or why it was refused).
pub fn resolve_add_target(raw_input: &str, bash_script: Result<String, String>) -> (r: Result<
    ResolvedTarget,
    String,
>)
    ensures
        match detect_appid_seq(raw_input@) {
            Some(appid) => r matches Ok(t) && t.runner_kind == RunnerKind::Steam
                && t.launch_target@ == appid,
            None => match bash_script {
                Ok(path) => r matches Ok(t) && t.runner_kind == RunnerKind::Bash
                    && t.launch_target@ == path@,
                Err(e) => r matches Err(e2) && e2@ == e@,
            },
        },
{
    if let Some(appid) = detect_appid(raw_input) {
        return Ok(ResolvedTarget { runner_kind: RunnerKind::Steam, launch_target: appid });
    }
    match bash_script {
        Ok(path) => Ok(ResolvedTarget { runner_kind: RunnerKind::Bash, launch_target: path }),
        Err(e) => Err(e),
    }
}

/// Whether `appid` is a valid Steam appid to launch: non-empty and all digits.
pub fn is_valid_steam_appid(appid: &str) -> (r: bool)
    ensures
        r == (appid@.len() > 0 && all_digits(appid@)),
{
    let v = chars_of(appid);
    v.len() > 0 && chars_all_digits(&v)
}

} // verus!
