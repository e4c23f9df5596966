//! What the launcher window says and decides: status lines after discovery, the check
//! of the add form, and the selection kept after the game list is reloaded.
use vstd::prelude::*;

use crate::text::{append_str, decimal_string, push_decimal, string_of, trim_seq, trim_str};
use crate::types::{DiscoverReport, DiscoverResult};

verus! {

broadcast use vstd::string::group_string_axioms;

/// The part of the discovery status line about MattMC.
pub open spec fn mattmc_status(r: Option<DiscoverResult>) -> Seq<char> {
    match r {
        Some(DiscoverResult::Added) => "MattMC added"@,
        Some(DiscoverResult::AlreadyExists) => "MattMC already exists"@,
        Some(DiscoverResult::NotFound) => "MattMC not found"@,
        None => "MattMC skipped"@,
    }
}

/// The discovery status line: `Discover complete | {MattMC part} | {Steam part}`.
pub open spec fn discover_status_spec(report: DiscoverReport) -> Seq<char> {
    let steam = match report.steam {
        Some(s) => "Steam: found "@ + decimal_string(s.found as nat) + ", added "@ + decimal_string(
            s.added as nat,
        ) + ", existing "@ + decimal_string(s.already_exists as nat),
        None => "Steam skipped"@,
    };
    "Discover complete | "@ + mattmc_status(report.mattmc) + " | "@ + steam
}

/// The discovery status line.
pub fn discover_status_message(report: &DiscoverReport) -> (r: String)
    ensures
        r@ == discover_status_spec(*report),
{
    let mut v: Vec<char> = Vec::new();
    append_str(&mut v, "Discover complete | ");
    match report.mattmc {
        Some(DiscoverResult::Added) => append_str(&mut v, "MattMC added"),
        Some(DiscoverResult::AlreadyExists) => append_str(&mut v, "MattMC already exists"),
        Some(DiscoverResult::NotFound) => append_str(&mut v, "MattMC not found"),
        None => append_str(&mut v, "MattMC skipped"),
    }
    append_str(&mut v, " | ");
    match &report.steam {
        Some(s) => {
            append_str(&mut v, "Steam: found ");
            push_decimal(&mut v, s.found as u64);
            append_str(&mut v, ", added ");
            push_decimal(&mut v, s.added as u64);
            append_str(&mut v, ", existing ");
            push_decimal(&mut v, s.already_exists as u64);
        },
        None => append_str(&mut v, "Steam skipped"),
    }
    assert(v@ =~= discover_status_spec(*report));
    string_of(&v)
}

/// What the add form gives: the trimmed name and script path, or the message when
/// either is blank.
pub fn check_add_inputs(name: &str, script_path: &str) -> (r: Result<(String, String), String>)
    ensures
        trim_seq(name@).len() == 0 || trim_seq(script_path@).len() == 0 ==> (r matches Err(e)
            && e@ == "Add requires both Name and Script path"@),
        trim_seq(name@).len() > 0 && trim_seq(script_path@).len() > 0 ==> (r matches Ok(p) && p.0@
            == trim_seq(name@) && p.1@ == trim_seq(script_path@)),
{
    let n = trim_str(name);
    let s = trim_str(script_path);
    if crate::text::chars_of(n.as_str()).len() == 0 || crate::text::chars_of(s.as_str()).len()
        == 0 {
        return Err("Add requires both Name and Script path".to_owned());
    }
    Ok((n, s))
}

/// The selection kept after the game list is reloaded: dropped when it is past the end.
pub fn selection_after_reload(selected: Option<usize>, game_count: usize) -> (r: Option<usize>)
    ensures
        r == match selected {
            Some(i) => if i < game_count {
                Some(i)
            } else {
                None::<usize>
            },
            None => None::<usize>,
        },
{
    match selected {
        Some(i) => if i < game_count {
            Some(i)
        } else {
            None
        },
        None => None,
    }
}

} // verus!
