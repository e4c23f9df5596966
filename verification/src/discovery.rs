//! Discovering games: emulated ROMs merged into the game list, Steam app manifests, and
//! the MattMC launch script; and which discovery sources a request runs.
use vstd::prelude::*;

use crate::emulation::{
    build_launch_target, build_launch_target_spec, file_name_of, file_name_stem,
    is_supported_rom_for_system, is_supported_rom_spec, name_stem, path_file_name,
};
use crate::error::CoreError;
use crate::games::{add_game, add_game_spec, has_target, is_already_exists_error,
    is_already_exists_message, is_blacklisted_error, script_view};
use crate::runners::RunnerKind;
use crate::text::{
    append_str, chars_eq, chars_of, chars_starts_with, split_chars, split_on, starts_with_seq,
    string_of, to_uppercase, unicode_uppercase, vecs_view,
};
use crate::types::{
    entries_view, strings_view, DiscoverResult, DiscoverRunner, EmulatorDiscoverReport, GameEntry,
    GameEntryView, SteamDiscoverReport,
};

verus! {

broadcast use vstd::string::group_string_axioms;

// ---------------------------------------------------------------------------
// Which sources run
// ---------------------------------------------------------------------------

/// Which discovery sources a request runs: `(mattmc, steam, emulators)`, each when the
/// request lists it.
pub fn discovery_plan(runners: &[DiscoverRunner]) -> (r: (bool, bool, bool))
    ensures
        r.0 == runners@.contains(DiscoverRunner::Mattmc),
        r.1 == runners@.contains(DiscoverRunner::Steam),
        r.2 == runners@.contains(DiscoverRunner::Emulators),
{
    let mut mattmc = false;
    let mut steam = false;
    let mut emulators = false;
    let mut i: usize = 0;
    while i < runners.len()
        invariant
            i <= runners@.len(),
            mattmc == runners@.take(i as int).contains(DiscoverRunner::Mattmc),
            steam == runners@.take(i as int).contains(DiscoverRunner::Steam),
            emulators == runners@.take(i as int).contains(DiscoverRunner::Emulators),
        decreases runners.len() - i,
    {
        let ghost t = runners@.take(i + 1);
        assert(t =~= runners@.take(i as int).push(runners@[i as int]));
        match runners[i] {
            DiscoverRunner::Mattmc => mattmc = true,
            DiscoverRunner::Steam => steam = true,
            DiscoverRunner::Emulators => emulators = true,
        }
        proof {
            assert forall|x: DiscoverRunner| #[trigger] t.contains(x) == (runners@.take(
                i as int,
            ).contains(x) || runners@[i as int] == x) by {
                if t.contains(x) {
                    let k = choose|k: int| 0 <= k < t.len() && t[k] == x;
                    if k < i {
                        assert(runners@.take(i as int)[k] == x);
                    }
                }
                if runners@.take(i as int).contains(x) {
                    let k = choose|k: int| 0 <= k < i && runners@.take(i as int)[k] == x;
                    assert(t[k] == x);
                }
                if runners@[i as int] == x {
                    assert(t[i as int] == x);
                }
            }
        }
        i += 1;
    }
    assert(runners@.take(runners@.len() as int) =~= runners@);
    (mattmc, steam, emulators)
}

// ---------------------------------------------------------------------------
// Emulated ROMs
// ---------------------------------------------------------------------------

/// The name under which a ROM is listed: `[SYSTEM] stem`, with the system in upper case
/// and the stem of the ROM's file name (`Unknown ROM` when the path has none).
pub open spec fn rom_entry_name(system: Seq<char>, rom_path: Seq<char>) -> Seq<char> {
    let stem = match path_file_name(rom_path) {
        Some(n) => name_stem(n),
        None => "Unknown ROM"@,
    };
    "["@ + unicode_uppercase(system) + "] "@ + stem
}

/// The name under which a ROM of `system` is listed.
pub fn build_entry_name(system: &str, rom_path: &str) -> (r: String)
    ensures
        r@ == rom_entry_name(system@, rom_path@),
{
    let stem = match file_name_of(rom_path) {
        Some(n) => file_name_stem(n.as_str()),
        None => "Unknown ROM".to_owned(),
    };
    let mut v: Vec<char> = Vec::new();
    append_str(&mut v, "[");
    let upper = to_uppercase(system);
    append_str(&mut v, upper.as_str());
    append_str(&mut v, "] ");
    append_str(&mut v, stem.as_str());
    string_of(&v)
}

/// The entry for the file at `rom_path` found in the ROM directory of `system`
/// (`canonical_rom_path` is the path made canonical where it could be): none when the
/// file is not a ROM of the system, else the emulator entry, or the message of why its
/// launch target cannot be built.
pub open spec fn rom_entry_spec(
    system: Seq<char>,
    rom_path: Seq<char>,
    canonical_rom_path: Seq<char>,
) -> Result<Option<GameEntryView>, Seq<char>> {
    if !is_supported_rom_spec(system, rom_path) {
        Ok(None)
    } else {
        match build_launch_target_spec(system, canonical_rom_path) {
            Err(m) => Err(m),
            Ok(t) => Ok(
                Some(
                    GameEntryView {
                        name: rom_entry_name(system, rom_path),
                        runner_kind: RunnerKind::Emulator,
                        launch_target: t,
                    },
                ),
            ),
        }
    }
}

/// The entry for a file found in the ROM directory of `system`.
pub fn rom_entry(system: &str, rom_path: &str, canonical_rom_path: &str) -> (r: Result<
    Option<GameEntry>,
    String,
>)
    ensures
        match rom_entry_spec(system@, rom_path@, canonical_rom_path@) {
            Ok(None) => r matches Ok(None),
            Ok(Some(e)) => r matches Ok(Some(g)) && g@ == e,
            Err(m) => r matches Err(x) && x@ == m,
        },
{
    if !is_supported_rom_for_system(system, rom_path) {
        return Ok(None);
    }
    let launch_target = build_launch_target(system, canonical_rom_path)?;
    let name = build_entry_name(system, rom_path);
    Ok(Some(GameEntry { name, runner_kind: RunnerKind::Emulator, launch_target }))
}

/// Whether an entry is one that emulator discovery manages: an emulator entry with a
/// RetroArch launch target.
pub open spec fn is_managed_emulator_entry(e: GameEntryView) -> bool {
    e.runner_kind == RunnerKind::Emulator && starts_with_seq(e.launch_target, "retroarch|"@)
}

/// Whether one of the discovered entries has the launch target `t`.
pub open spec fn discovered_target(discovered: Seq<GameEntryView>, t: Seq<char>) -> bool {
    exists|i: int| 0 <= i < discovered.len() && #[trigger] discovered[i].launch_target == t
}

/// Whether an entry is dropped before merging: a managed emulator entry whose ROM was
/// not discovered again.
pub open spec fn is_stale(e: GameEntryView, discovered: Seq<GameEntryView>) -> bool {
    is_managed_emulator_entry(e) && !discovered_target(discovered, e.launch_target)
}

/// The state of a merge: the entries so far and the counts of added, updated and
/// already existing discovered entries.
pub struct MergeState {
    pub entries: Seq<GameEntryView>,
    pub added: nat,
    pub updated: nat,
    pub already_exists: nat,
    pub changed: bool,
}

/// The first position, at or after `k`, of an entry named `name`.
pub open spec fn index_named_from(entries: Seq<GameEntryView>, name: Seq<char>, k: int) -> Option<int>
    decreases entries.len() - k,
{
    if k < 0 || k >= entries.len() {
        None
    } else if entries[k].name == name {
        Some(k)
    } else {
        index_named_from(entries, name, k + 1)
    }
}

/// Merging one discovered entry: an entry of the same name is kept when it already
/// has the same runner and target, else its runner and target are replaced; without
/// one, the discovered entry is added unless an entry already has its runner and
/// target.
pub open spec fn merge_one(s: MergeState, d: GameEntryView) -> MergeState {
    match index_named_from(s.entries, d.name, 0) {
        Some(k) => if s.entries[k].runner_kind == d.runner_kind && s.entries[k].launch_target
            == d.launch_target {
            MergeState { already_exists: s.already_exists + 1, ..s }
        } else {
            MergeState {
                entries: s.entries.update(
                    k,
                    GameEntryView {
                        name: s.entries[k].name,
                        runner_kind: d.runner_kind,
                        launch_target: d.launch_target,
                    },
                ),
                updated: s.updated + 1,
                changed: true,
                ..s
            }
        },
        None => if has_target(s.entries, d.runner_kind, d.launch_target) {
            MergeState { already_exists: s.already_exists + 1, ..s }
        } else {
            MergeState { entries: s.entries.push(d), added: s.added + 1, changed: true, ..s }
        },
    }
}

/// Merging the discovered entries, in order.
pub open spec fn merge_all(s: MergeState, discovered: Seq<GameEntryView>) -> MergeState
    decreases discovered.len(),
{
    if discovered.len() == 0 {
        s
    } else {
        merge_one(merge_all(s, discovered.drop_last()), discovered.last())
    }
}

/// The start of a merge: the entries without the stale ones, no counts, and a change
/// exactly when a stale entry was dropped.
pub open spec fn merge_start(entries: Seq<GameEntryView>, discovered: Seq<GameEntryView>) -> MergeState {
    let kept = entries.filter(|e: GameEntryView| !is_stale(e, discovered));
    MergeState {
        entries: kept,
        added: 0,
        updated: 0,
        already_exists: 0,
        changed: kept.len() != entries.len(),
    }
}

/// What emulator discovery does to the game list.
pub struct EmulatorMerge {
    pub report: EmulatorDiscoverReport,
    pub entries: Vec<GameEntry>,
    pub removed_names: Vec<String>,
    pub changed: bool,
}

/// Whether some entry of `discovered` has the launch target `t`.
fn has_discovered_target(discovered: &[GameEntry], t: &Vec<char>) -> (r: bool)
    ensures
        r == discovered_target(entries_view(discovered@), t@),
{
    let ghost dv = entries_view(discovered@);
    let mut i: usize = 0;
    while i < discovered.len()
        invariant
            i <= discovered@.len(),
            dv == entries_view(discovered@),
            forall|j: int| 0 <= j < i ==> #[trigger] dv[j].launch_target != t@,
        decreases discovered.len() - i,
    {
        assert(dv[i as int] == discovered@[i as int]@);
        if chars_eq(&chars_of(discovered[i].launch_target.as_str()), t) {
            assert(dv[i as int].launch_target == t@);
            return true;
        }
        i += 1;
    }
    false
}

/// The position of the first entry named `name`.
fn first_named(entries: &Vec<GameEntry>, name: &Vec<char>) -> (r: Option<usize>)
    ensures
        match r {
            Some(k) => index_named_from(entries_view(entries@), name@, 0) == Some(k as int) && k
                < entries@.len(),
            None => index_named_from(entries_view(entries@), name@, 0) is None,
        },
{
    let ghost ev = entries_view(entries@);
    let mut i: usize = 0;
    while i < entries.len()
        invariant
            i <= entries@.len(),
            ev == entries_view(entries@),
            index_named_from(ev, name@, 0) == index_named_from(ev, name@, i as int),
        decreases entries.len() - i,
    {
        assert(ev[i as int] == entries@[i as int]@);
        if chars_eq(&chars_of(entries[i].name.as_str()), name) {
            return Some(i);
        }
        i += 1;
    }
    None
}

/// Merges the entries found by emulator discovery into the game list: managed emulator
/// entries whose ROM is gone are dropped (their names are given back), then each
/// discovered entry is merged in turn.
pub fn merge_emulator_entries(discovered: &[GameEntry], entries: &[GameEntry]) -> (r: EmulatorMerge)
    ensures
        ({
            let dv = entries_view(discovered@);
            let ev = entries_view(entries@);
            let s = merge_all(merge_start(ev, dv), dv);
            &&& entries_view(r.entries@) == s.entries
            &&& r.report.found == dv.len()
            &&& r.report.added == s.added
            &&& r.report.updated == s.updated
            &&& r.report.already_exists == s.already_exists
            &&& r.changed == s.changed
            &&& strings_view(r.removed_names@) == Seq::new(
                ev.filter(|e: GameEntryView| is_stale(e, dv)).len(),
                |i: int| ev.filter(|e: GameEntryView| is_stale(e, dv))[i].name,
            )
        }),
        r.report.found == r.report.added + r.report.updated + r.report.already_exists,
{
    let ghost dv = entries_view(discovered@);
    let ghost ev = entries_view(entries@);
    let ghost keep = |e: GameEntryView| !is_stale(e, dv);
    let ghost drop = |e: GameEntryView| is_stale(e, dv);
    let prefix = chars_of("retroarch|");
    let mut kept: Vec<GameEntry> = Vec::new();
    let mut removed: Vec<String> = Vec::new();
    let mut i: usize = 0;
    while i < entries.len()
        invariant
            i <= entries@.len(),
            dv == entries_view(discovered@),
            ev == entries_view(entries@),
            keep == (|e: GameEntryView| !is_stale(e, dv)),
            drop == (|e: GameEntryView| is_stale(e, dv)),
            prefix@ == "retroarch|"@,
            entries_view(kept@) == ev.take(i as int).filter(keep),
            strings_view(removed@) == Seq::new(
                ev.take(i as int).filter(drop).len(),
                |k: int| ev.take(i as int).filter(drop)[k].name,
            ),
        decreases entries.len() - i,
    {
        let ghost t = ev.take(i + 1);
        assert(t.drop_last() =~= ev.take(i as int));
        assert(t.last() == entries@[i as int]@);
        proof {
            reveal(Seq::filter);
        }
        let ghost kb = entries_view(kept@);
        let ghost rb = strings_view(removed@);
        let e = &entries[i];
        let managed = e.runner_kind == RunnerKind::Emulator && chars_starts_with(
            &chars_of(e.launch_target.as_str()),
            &prefix,
        );
        let stale = managed && !has_discovered_target(discovered, &chars_of(e.launch_target.as_str()));
        assert(stale == is_stale(e@, dv));
        if stale {
            assert(t.filter(drop) == ev.take(i as int).filter(drop).push(e@));
            removed.push(e.name.clone());
            assert(strings_view(removed@) =~= rb.push(e.name@));
            assert(strings_view(removed@) =~= Seq::new(
                t.filter(drop).len(),
                |k: int| t.filter(drop)[k].name,
            ));
        } else {
            assert(t.filter(drop) == ev.take(i as int).filter(drop));
            assert(t.filter(keep) == ev.take(i as int).filter(keep).push(e@));
            kept.push(e.duplicate());
            assert(entries_view(kept@) =~= kb.push(e@));
            assert(strings_view(removed@) =~= Seq::new(
                t.filter(drop).len(),
                |k: int| t.filter(drop)[k].name,
            ));
        }
        i += 1;
    }
    assert(ev.take(entries@.len() as int) =~= ev);
    let mut changed = kept.len() != entries.len();
    proof {
        assert(ev.filter(keep).len() == kept@.len());
    }
    let ghost start = merge_start(ev, dv);
    assert(start.entries == entries_view(kept@));
    let mut added: usize = 0;
    let mut updated: usize = 0;
    let mut already_exists: usize = 0;
    let mut j: usize = 0;
    while j < discovered.len()
        invariant
            j <= discovered@.len(),
            dv == entries_view(discovered@),
            start == merge_start(ev, dv),
            ({
                let s = merge_all(start, dv.take(j as int));
                &&& entries_view(kept@) == s.entries
                &&& added == s.added
                &&& updated == s.updated
                &&& already_exists == s.already_exists
                &&& changed == s.changed
            }),
            added + updated + already_exists == j,
        decreases discovered.len() - j,
    {
        let ghost t = dv.take(j + 1);
        assert(t.drop_last() =~= dv.take(j as int));
        assert(t.last() == discovered@[j as int]@);
        let ghost before = merge_all(start, dv.take(j as int));
        let ghost kb = entries_view(kept@);
        let d = &discovered[j];
        let name = chars_of(d.name.as_str());
        match first_named(&kept, &name) {
            Some(k) => {
                assert(kb[k as int] == kept@[k as int]@);
                if kept[k].runner_kind == d.runner_kind && chars_eq(
                    &chars_of(kept[k].launch_target.as_str()),
                    &chars_of(d.launch_target.as_str()),
                ) {
                    already_exists += 1;
                } else {
                    kept[k].runner_kind = d.runner_kind;
                    kept[k].launch_target = d.launch_target.clone();
                    assert(entries_view(kept@) =~= kb.update(
                        k as int,
                        GameEntryView {
                            name: kb[k as int].name,
                            runner_kind: d.runner_kind,
                            launch_target: d.launch_target@,
                        },
                    ));
                    updated += 1;
                    changed = true;
                }
            },
            None => {
                if crate::games::entries_have_target(
                    kept.as_slice(),
                    d.runner_kind,
                    d.launch_target.as_str(),
                ) {
                    already_exists += 1;
                } else {
                    kept.push(d.duplicate());
                    assert(entries_view(kept@) =~= kb.push(d@));
                    added += 1;
                    changed = true;
                }
            },
        }
        j += 1;
    }
    assert(dv.take(discovered@.len() as int) =~= dv);
    EmulatorMerge {
        report: EmulatorDiscoverReport { found: discovered.len(), added, updated, already_exists },
        entries: kept,
        removed_names: removed,
        changed,
    }
}

/// Keeping only some entries keeps their names unique.
proof fn lemma_filter_keeps_names_unique(
    entries: Seq<GameEntryView>,
    keep: spec_fn(GameEntryView) -> bool,
)
    requires
        crate::games::names_unique(entries),
    ensures
        crate::games::names_unique(entries.filter(keep)),
    decreases entries.len(),
{
    reveal(Seq::filter);
    if entries.len() > 0 {
        let prev = entries.drop_last();
        assert(crate::games::names_unique(prev)) by {
            assert forall|i: int, j: int|
                0 <= i < prev.len() && 0 <= j < prev.len() && i != j implies #[trigger] prev[i].name
                != #[trigger] prev[j].name by {
                assert(prev[i] == entries[i] && prev[j] == entries[j]);
            }
        }
        lemma_filter_keeps_names_unique(prev, keep);
        let f = prev.filter(keep);
        if keep(entries.last()) {
            let r = f.push(entries.last());
            assert forall|i: int, j: int|
                0 <= i < r.len() && 0 <= j < r.len() && i != j implies #[trigger] r[i].name
                != #[trigger] r[j].name by {
                if i == f.len() || j == f.len() {
                    let k = if i == f.len() {
                        j
                    } else {
                        i
                    };
                    assert(f.contains(f[k]));
                    prev.lemma_filter_contains_rev(keep, f[k]);
                    let q = choose|q: int| 0 <= q < prev.len() && prev[q] == f[k];
                    assert(entries[q] == f[k]);
                    assert(entries[entries.len() - 1] == entries.last());
                    assert(entries[q].name != entries[entries.len() - 1].name);
                } else {
                    assert(r[i] == f[i] && r[j] == f[j]);
                }
            }
        }
    }
}

/// With no first entry named `name` at or after `k`, no entry from `k` on has it.
proof fn lemma_index_named_none(entries: Seq<GameEntryView>, name: Seq<char>, k: int, i: int)
    requires
        0 <= k <= i < entries.len(),
        index_named_from(entries, name, k) is None,
    ensures
        entries[i].name != name,
    decreases i - k,
{
    if k < i {
        lemma_index_named_none(entries, name, k + 1, i);
    }
}

/// A found entry has the name looked for.
proof fn lemma_index_named_some(entries: Seq<GameEntryView>, name: Seq<char>, k: int)
    requires
        0 <= k,
        index_named_from(entries, name, k) is Some,
    ensures
        0 <= index_named_from(entries, name, k)->0 < entries.len(),
        entries[index_named_from(entries, name, k)->0].name == name,
    decreases entries.len() - k,
{
    if k < entries.len() && entries[k].name != name {
        lemma_index_named_some(entries, name, k + 1);
    }
}

/// Merging discovered entries keeps the names of the entries unique.
proof fn lemma_merge_all_keeps_names_unique(s: MergeState, discovered: Seq<GameEntryView>)
    requires
        crate::games::names_unique(s.entries),
    ensures
        crate::games::names_unique(merge_all(s, discovered).entries),
    decreases discovered.len(),
{
    if discovered.len() > 0 {
        lemma_merge_all_keeps_names_unique(s, discovered.drop_last());
        let t = merge_all(s, discovered.drop_last());
        let d = discovered.last();
        let es = t.entries;
        match index_named_from(es, d.name, 0) {
            Some(k) => {
                lemma_index_named_some(es, d.name, 0);
                let r = merge_one(t, d).entries;
                assert forall|i: int, j: int|
                    0 <= i < r.len() && 0 <= j < r.len() && i != j implies #[trigger] r[i].name
                    != #[trigger] r[j].name by {
                    assert(r[i].name == es[i].name);
                    assert(r[j].name == es[j].name);
                }
            },
            None => {
                let r = merge_one(t, d).entries;
                if !has_target(es, d.runner_kind, d.launch_target) {
                    assert forall|i: int, j: int|
                        0 <= i < r.len() && 0 <= j < r.len() && i != j implies #[trigger] r[i].name
                        != #[trigger] r[j].name by {
                        if i == es.len() {
                            lemma_index_named_none(es, d.name, 0, j);
                        } else if j == es.len() {
                            lemma_index_named_none(es, d.name, 0, i);
                        } else {
                            assert(r[i] == es[i] && r[j] == es[j]);
                        }
                    }
                }
            },
        }
    }
}

/// Emulator discovery keeps the names of the games unique.
pub proof fn lemma_emulator_merge_keeps_names_unique(
    entries: Seq<GameEntryView>,
    discovered: Seq<GameEntryView>,
)
    requires
        crate::games::names_unique(entries),
    ensures
        crate::games::names_unique(merge_all(merge_start(entries, discovered), discovered).entries),
{
    lemma_filter_keeps_names_unique(entries, |e: GameEntryView| !is_stale(e, discovered));
    lemma_merge_all_keeps_names_unique(merge_start(entries, discovered), discovered);
}

// ---------------------------------------------------------------------------
// Steam
// ---------------------------------------------------------------------------

/// The value of `key` on a line of a Valve data file: the line split at `"` has at
/// least four parts, the second is `key`, and the fourth is the value.
pub open spec fn vdf_value_spec(line: Seq<char>, key: Seq<char>) -> Option<Seq<char>> {
    let parts = split_on(line, '"');
    if parts.len() >= 4 && parts[1] == key {
        Some(parts[3])
    } else {
        None
    }
}

/// The value of `key` on a line of a Valve data file.
pub fn extract_vdf_value(line: &Vec<char>, key: &str) -> (r: Option<String>)
    ensures
        match vdf_value_spec(line@, key@) {
            Some(v) => r matches Some(s) && s@ == v,
            None => r is None,
        },
{
    let parts = split_chars(line, '"');
    assert(vecs_view(parts@) == split_on(line@, '"'));
    if parts.len() >= 4 {
        assert(vecs_view(parts@)[1] == parts@[1]@);
        assert(vecs_view(parts@)[3] == parts@[3]@);
        if chars_eq(&parts[1], &chars_of(key)) {
            return Some(string_of(&parts[3]));
        }
    }
    None
}

/// The value of `key` on the first line, at or after `k`, that has one.
pub open spec fn first_vdf_value(lines: Seq<Seq<char>>, key: Seq<char>, k: int) -> Option<Seq<char>>
    decreases lines.len() - k,
{
    if k < 0 || k >= lines.len() {
        None
    } else {
        match vdf_value_spec(lines[k], key) {
            Some(v) => Some(v),
            None => first_vdf_value(lines, key, k + 1),
        }
    }
}

/// The appid and name that a Steam app manifest gives: the first of each, when both
/// are there and not empty.
pub open spec fn steam_manifest_spec(contents: Seq<char>) -> Option<(Seq<char>, Seq<char>)> {
    let lines = crate::text::lines_seq(contents);
    match (first_vdf_value(lines, "appid"@, 0), first_vdf_value(lines, "name"@, 0)) {
        (Some(a), Some(n)) => if a.len() > 0 && n.len() > 0 {
            Some((a, n))
        } else {
            None
        },
        _ => None,
    }
}

/// The appid and name that a Steam app manifest gives.
pub fn parse_steam_manifest(contents: &str) -> (r: Option<(String, String)>)
    ensures
        match steam_manifest_spec(contents@) {
            Some(p) => r matches Some(q) && q.0@ == p.0 && q.1@ == p.1,
            None => r is None,
        },
{
    let lines = crate::text::lines_of_str(contents);
    let ghost lv = vecs_view(lines@);
    let mut appid: Option<String> = None;
    let mut name: Option<String> = None;
    let mut i: usize = 0;
    while i < lines.len()
        invariant
            i <= lines@.len(),
            lv == vecs_view(lines@),
            lv == crate::text::lines_seq(contents@),
            match appid {
                Some(a) => first_vdf_value(lv, "appid"@, 0) == Some(a@),
                None => first_vdf_value(lv, "appid"@, 0) == first_vdf_value(lv, "appid"@, i as int),
            },
            match name {
                Some(n) => first_vdf_value(lv, "name"@, 0) == Some(n@),
                None => first_vdf_value(lv, "name"@, 0) == first_vdf_value(lv, "name"@, i as int),
            },
        decreases lines.len() - i,
    {
        assert(lv[i as int] == lines@[i as int]@);
        if appid.is_none() {
            appid = extract_vdf_value(&lines[i], "appid");
        }
        if name.is_none() {
            name = extract_vdf_value(&lines[i], "name");
        }
        i += 1;
    }
    match (appid, name) {
        (Some(a), Some(n)) => {
            if chars_of(a.as_str()).len() > 0 && chars_of(n.as_str()).len() > 0 {
                Some((a, n))
            } else {
                None
            }
        },
        _ => None,
    }
}

/// `s` with each pair of backslashes, from left to right, made one.
pub open spec fn collapse_backslashes(s: Seq<char>) -> Seq<char>
    decreases s.len(),
{
    if s.len() >= 2 && s[0] == '\\' && s[1] == '\\' {
        seq!['\\'] + collapse_backslashes(s.skip(2))
    } else if s.len() >= 1 {
        seq![s[0]] + collapse_backslashes(s.skip(1))
    } else {
        Seq::empty()
    }
}

/// `v` with each pair of backslashes made one.
fn collapse_backslash_chars(v: &Vec<char>) -> (r: String)
    ensures
        r@ == collapse_backslashes(v@),
{
    let mut out: Vec<char> = Vec::new();
    let mut i: usize = 0;
    assert(v@.skip(0) =~= v@);
    assert(out@ + collapse_backslashes(v@) =~= collapse_backslashes(v@));
    while i < v.len()
        invariant
            i <= v.len(),
            out@ + collapse_backslashes(v@.skip(i as int)) == collapse_backslashes(v@),
        decreases v.len() - i,
    {
        let ghost rest = v@.skip(i as int);
        if i + 1 < v.len() && v[i] == '\\' && v[i + 1] == '\\' {
            assert(rest.skip(2) =~= v@.skip(i + 2));
            out.push('\\');
            assert(out@ + collapse_backslashes(v@.skip(i + 2)) =~= collapse_backslashes(v@));
            i += 2;
        } else {
            assert(rest.skip(1) =~= v@.skip(i + 1));
            out.push(v[i]);
            assert(out@ + collapse_backslashes(v@.skip(i + 1)) =~= collapse_backslashes(v@));
            i += 1;
        }
    }
    assert(v@.skip(v@.len() as int) =~= Seq::<char>::empty());
    assert(out@ =~= collapse_backslashes(v@));
    string_of(&out)
}

/// The library folders that a Steam `libraryfolders.vdf` lists, in order: the `path`
/// value of each line that has one, with doubled backslashes made single.
pub open spec fn library_folders_spec(lines: Seq<Seq<char>>) -> Seq<Seq<char>>
    decreases lines.len(),
{
    if lines.len() == 0 {
        Seq::empty()
    } else {
        let prev = library_folders_spec(lines.drop_last());
        match vdf_value_spec(lines.last(), "path"@) {
            Some(p) => prev.push(collapse_backslashes(p)),
            None => prev,
        }
    }
}

/// The library folders that a Steam `libraryfolders.vdf` lists.
pub fn parse_steam_libraryfolders(contents: &str) -> (r: Vec<String>)
    ensures
        strings_view(r@) == library_folders_spec(crate::text::lines_seq(contents@)),
{
    let lines = crate::text::lines_of_str(contents);
    let ghost lv = vecs_view(lines@);
    let mut out: Vec<String> = Vec::new();
    let mut i: usize = 0;
    while i < lines.len()
        invariant
            i <= lines@.len(),
            lv == vecs_view(lines@),
            strings_view(out@) == library_folders_spec(lv.take(i as int)),
        decreases lines.len() - i,
    {
        assert(lv.take(i + 1).drop_last() =~= lv.take(i as int));
        assert(lv.take(i + 1).last() == lines@[i as int]@);
        let ghost before = strings_view(out@);
        match extract_vdf_value(&lines[i], "path") {
            Some(raw) => {
                let p = collapse_backslash_chars(&chars_of(raw.as_str()));
                out.push(p);
                assert(strings_view(out@) =~= before.push(collapse_backslashes(raw@)));
            },
            None => {},
        }
        i += 1;
    }
    assert(lv.take(lines@.len() as int) =~= lv);
    out
}

/// Whether a file name is that of a Steam app manifest: `appmanifest_*.acf`.
pub fn is_app_manifest_name(file_name: &str) -> (r: bool)
    ensures
        r == (starts_with_seq(file_name@, "appmanifest_"@) && crate::text::ends_with_seq(
            file_name@,
            ".acf"@,
        )),
{
    let v = chars_of(file_name);
    chars_starts_with(&v, &chars_of("appmanifest_")) && crate::text::chars_ends_with(
        &v,
        &chars_of(".acf"),
    )
}

/// The target under which a Steam app is added: `steam://rungameid/{appid}`.
pub fn steam_game_target(appid: &str) -> (r: String)
    ensures
        r@ == "steam://rungameid/"@ + appid@,
{
    crate::text::concat2("steam://rungameid/", appid)
}

/// An installed Steam app, as its manifest gives it: appid and name, with what
/// resolving its launch target as a bash script gives (used only when the target names
/// no Steam appid, which happens when the appid is not all digits).
pub struct SteamManifest {
    pub appid: String,
    pub name: String,
    pub script_resolution: Result<String, String>,
}

/// A copy of the outcome of resolving a script.
fn copy_resolution(r: &Result<String, String>) -> (c: Result<String, String>)
    ensures
        script_view(c) == script_view(*r),
{
    match r {
        Ok(p) => Ok(p.clone()),
        Err(e) => Err(e.clone()),
    }
}

/// The state of Steam discovery after some manifests: the entries, and the counts.
pub struct SteamState {
    pub entries: Seq<GameEntryView>,
    pub found: nat,
    pub added: nat,
    pub already_exists: nat,
}

/// The outcome of Steam discovery: the state reached, and the error that stopped it.
pub open spec fn steam_step(
    s: SteamState,
    m: SteamManifest,
    blacklisted: Seq<Seq<char>>,
) -> Result<SteamState, Seq<char>> {
    match add_game_spec(
        m.name@,
        "steam://rungameid/"@ + m.appid@,
        script_view(m.script_resolution),
        blacklisted,
        s.entries,
    ) {
        Ok(e) => Ok(SteamState { entries: e, found: s.found + 1, added: s.added + 1, ..s }),
        Err(msg) => if is_already_exists_message(msg) {
            Ok(SteamState { found: s.found + 1, already_exists: s.already_exists + 1, ..s })
        } else {
            Err(msg)
        },
    }
}

/// Steam discovery over the manifests in order, up to the first error: the state
/// reached and the error, if one stopped it.
pub open spec fn steam_run(
    s: SteamState,
    ms: Seq<SteamManifest>,
    blacklisted: Seq<Seq<char>>,
) -> (SteamState, Option<Seq<char>>)
    decreases ms.len(),
{
    if ms.len() == 0 {
        (s, None)
    } else {
        let (prev, err) = steam_run(s, ms.drop_last(), blacklisted);
        match err {
            Some(e) => (prev, Some(e)),
            None => match steam_step(prev, ms.last(), blacklisted) {
                Ok(n) => (n, None),
                Err(e) => (prev, Some(e)),
            },
        }
    }
}

/// Once an error stops Steam discovery, later manifests change nothing.
proof fn lemma_steam_run_stops(
    s: SteamState,
    ms: Seq<SteamManifest>,
    b: Seq<Seq<char>>,
    k: int,
    k2: int,
)
    requires
        0 <= k <= k2 <= ms.len(),
        steam_run(s, ms.take(k), b).1 is Some,
    ensures
        steam_run(s, ms.take(k2), b) == steam_run(s, ms.take(k), b),
    decreases k2 - k,
{
    if k2 > k {
        lemma_steam_run_stops(s, ms, b, k, k2 - 1);
        assert(ms.take(k2).drop_last() =~= ms.take(k2 - 1));
    }
}

/// What Steam discovery does to the game list: the counts, the entries after the
/// games it added, and the error that stopped it, if any.
pub struct SteamDiscovery {
    pub report: SteamDiscoverReport,
    pub entries: Vec<GameEntry>,
    pub error: Option<CoreError>,
}

/// Adds each installed Steam app in turn as a game named by its manifest; a game that
/// already exists is counted, and any other refusal stops discovery.
/// The state of Steam discovery held by the entries and the counts.
pub open spec fn steam_state_of(entries: Seq<GameEntryView>, found: usize, added: usize, already: usize) -> SteamState {
    SteamState { entries, found: found as nat, added: added as nat, already_exists: already as nat }
}

/// One step of Steam discovery: the game of manifest `m` is added to `current`, or
/// counted as existing, or the refusal is given back.
fn steam_add_one(
    m: &SteamManifest,
    blacklisted: &[String],
    current: &mut Vec<GameEntry>,
    found: &mut usize,
    added: &mut usize,
    already: &mut usize,
) -> (r: Option<CoreError>)
    requires
        *old(found) < usize::MAX,
        *old(added) < usize::MAX,
        *old(already) < usize::MAX,
    ensures
        match steam_step(
            steam_state_of(entries_view(old(current)@), *old(found), *old(added), *old(already)),
            *m,
            strings_view(blacklisted@),
        ) {
            Ok(n) => r is None && steam_state_of(
                entries_view(final(current)@),
                *final(found),
                *final(added),
                *final(already),
            ) == n,
            Err(msg) => r matches Some(e) && e@ == msg && entries_view(final(current)@)
                == entries_view(old(current)@) && *final(found) == *old(found) && *final(added)
                == *old(added) && *final(already) == *old(already),
        },
{
    let target = steam_game_target(m.appid.as_str());
    let resolution = copy_resolution(&m.script_resolution);
    match add_game(m.name.as_str(), target.as_str(), resolution, blacklisted, current.as_slice()) {
        Ok(next) => {
            *current = next;
            *found += 1;
            *added += 1;
            None
        },
        Err(e) => {
            if is_already_exists_error(&e) {
                *found += 1;
                *already += 1;
                None
            } else {
                Some(e)
            }
        },
    }
}

/// Adds each installed Steam app in turn as a game named by its manifest; a game that
/// already exists is counted, and any other refusal stops discovery.
pub fn discover_steam_entries(
    manifests: &[SteamManifest],
    blacklisted: &[String],
    entries: &[GameEntry],
) -> (r: SteamDiscovery)
    ensures
        ({
            let start = SteamState {
                entries: entries_view(entries@),
                found: 0,
                added: 0,
                already_exists: 0,
            };
            let (s, err) = steam_run(start, manifests@, strings_view(blacklisted@));
            &&& entries_view(r.entries@) == s.entries
            &&& r.report.found == s.found
            &&& r.report.added == s.added
            &&& r.report.already_exists == s.already_exists
            &&& match err {
                Some(m) => r.error matches Some(e) && e@ == m,
                None => r.error is None,
            }
        }),
        r.report.found == r.report.added + r.report.already_exists,
{
    let ghost ms = manifests@;
    let ghost b = strings_view(blacklisted@);
    let ghost start = SteamState {
        entries: entries_view(entries@),
        found: 0,
        added: 0,
        already_exists: 0,
    };
    let mut current = crate::types::copy_entries(entries);
    let mut found: usize = 0;
    let mut added: usize = 0;
    let mut already: usize = 0;
    let mut stop: Option<CoreError> = None;
    let mut i: usize = 0;
    let n = manifests.len();
    while i < n && stop.is_none()
        invariant
            i <= n,
            n == ms.len(),
            ms == manifests@,
            b == strings_view(blacklisted@),
            found <= i,
            added <= i,
            already <= i,
            found == added + already,
            match stop {
                None => steam_run(start, ms.take(i as int), b) == (
                    steam_state_of(entries_view(current@), found, added, already),
                    None::<Seq<char>>,
                ),
                Some(e) => steam_run(start, ms.take(i as int), b) == (
                    steam_state_of(entries_view(current@), found, added, already),
                    Some(e@),
                ),
            },
        decreases n - i,
    {
        let ghost t = ms.take(i + 1);
        assert(t.drop_last() =~= ms.take(i as int));
        assert(t.last() == ms[i as int]);
        stop = steam_add_one(&manifests[i], blacklisted, &mut current, &mut found, &mut added, &mut already);
        i += 1;
    }
    proof {
        if stop is Some {
            lemma_steam_run_stops(start, ms, b, i as int, n as int);
        }
        assert(ms.take(n as int) =~= ms);
    }
    SteamDiscovery {
        report: SteamDiscoverReport { found, added, already_exists: already },
        entries: current,
        error: stop,
    }
}

/// Steam discovery keeps the names of the games unique.
pub proof fn lemma_steam_run_keeps_names_unique(
    s: SteamState,
    ms: Seq<SteamManifest>,
    blacklisted: Seq<Seq<char>>,
)
    requires
        crate::games::names_unique(s.entries),
    ensures
        crate::games::names_unique(steam_run(s, ms, blacklisted).0.entries),
    decreases ms.len(),
{
    if ms.len() > 0 {
        lemma_steam_run_keeps_names_unique(s, ms.drop_last(), blacklisted);
        let (prev, err) = steam_run(s, ms.drop_last(), blacklisted);
        if err is None {
            let m = ms.last();
            let target = "steam://rungameid/"@ + m.appid@;
            if add_game_spec(m.name@, target, script_view(m.script_resolution), blacklisted, prev.entries) is Ok {
                crate::games::lemma_add_keeps_names_unique(
                    m.name@,
                    target,
                    script_view(m.script_resolution),
                    blacklisted,
                    prev.entries,
                );
            }
        }
    }
}

// ---------------------------------------------------------------------------
// MattMC
// ---------------------------------------------------------------------------

/// The name under which MattMC is listed.
pub const MATTMC_ENTRY_NAME: &'static str = "MattMC";

/// What MattMC discovery gives, for the launch script found at `script` (none when it
/// is missing): not found; already listed with that script; the MattMC entry pointed
/// at the script; or the outcome of adding it as a game (`resolution` is what resolving
/// the script as a bash script gives), where a refusal because it exists or is
/// blacklisted counts as already listed.
pub open spec fn mattmc_discovery_spec(
    script: Option<Seq<char>>,
    resolution: Result<Seq<char>, Seq<char>>,
    blacklisted: Seq<Seq<char>>,
    entries: Seq<GameEntryView>,
) -> Result<(DiscoverResult, Option<Seq<GameEntryView>>), Seq<char>> {
    match script {
        None => Ok((DiscoverResult::NotFound, None)),
        Some(path) => match index_named_from(entries, MATTMC_ENTRY_NAME@, 0) {
            Some(k) => if entries[k].runner_kind == RunnerKind::Bash && entries[k].launch_target
                == path {
                Ok((DiscoverResult::AlreadyExists, None))
            } else {
                Ok(
                    (
                        DiscoverResult::Added,
                        Some(
                            entries.update(
                                k,
                                GameEntryView {
                                    name: entries[k].name,
                                    runner_kind: RunnerKind::Bash,
                                    launch_target: path,
                                },
                            ),
                        ),
                    ),
                )
            },
            None => match add_game_spec(MATTMC_ENTRY_NAME@, path, resolution, blacklisted, entries) {
                Ok(e) => Ok((DiscoverResult::Added, Some(e))),
                Err(m) => if is_already_exists_message(m) || (starts_with_seq(m, "Game name '"@)
                    && crate::text::ends_with_seq(m, "' is blacklisted"@)) {
                    Ok((DiscoverResult::AlreadyExists, None))
                } else {
                    Err(m)
                },
            },
        },
    }
}

/// MattMC discovery: the outcome, with the new entries when they changed.
pub fn discover_mattmc_entry(
    script: Option<String>,
    resolution: Result<String, String>,
    blacklisted: &[String],
    entries: &[GameEntry],
) -> (r: Result<(DiscoverResult, Option<Vec<GameEntry>>), CoreError>)
    ensures
        match mattmc_discovery_spec(
            crate::settings::opt_view(script),
            script_view(resolution),
            strings_view(blacklisted@),
            entries_view(entries@),
        ) {
            Ok((d, None)) => r matches Ok((x, None)) && x == d,
            Ok((d, Some(e))) => r matches Ok((x, Some(v))) && x == d && entries_view(v@) == e,
            Err(m) => r matches Err(e) && e@ == m,
        },
{
    let path = match script {
        None => {
            return Ok((DiscoverResult::NotFound, None));
        },
        Some(p) => p,
    };
    let mut current = crate::types::copy_entries(entries);
    let name = chars_of(MATTMC_ENTRY_NAME);
    match first_named(&current, &name) {
        Some(k) => {
            let ghost ev = entries_view(current@);
            assert(ev[k as int] == current@[k as int]@);
            if current[k].runner_kind == RunnerKind::Bash && chars_eq(
                &chars_of(current[k].launch_target.as_str()),
                &chars_of(path.as_str()),
            ) {
                return Ok((DiscoverResult::AlreadyExists, None));
            }
            current[k].runner_kind = RunnerKind::Bash;
            current[k].launch_target = path;
            assert(entries_view(current@) =~= ev.update(
                k as int,
                GameEntryView {
                    name: ev[k as int].name,
                    runner_kind: RunnerKind::Bash,
                    launch_target: current@[k as int].launch_target@,
                },
            ));
            Ok((DiscoverResult::Added, Some(current)))
        },
        None => match add_game(MATTMC_ENTRY_NAME, path.as_str(), resolution, blacklisted, entries) {
            Ok(e) => Ok((DiscoverResult::Added, Some(e))),
            Err(err) => {
                if is_already_exists_error(&err) || is_blacklisted_error(&err) {
                    Ok((DiscoverResult::AlreadyExists, None))
                } else {
                    Err(err)
                }
            },
        },
    }
}

/// MattMC discovery keeps the names of the games unique.
pub proof fn lemma_mattmc_discovery_keeps_names_unique(
    script: Option<Seq<char>>,
    resolution: Result<Seq<char>, Seq<char>>,
    blacklisted: Seq<Seq<char>>,
    entries: Seq<GameEntryView>,
)
    requires
        crate::games::names_unique(entries),
        mattmc_discovery_spec(script, resolution, blacklisted, entries) matches Ok((_, Some(_))),
    ensures
        crate::games::names_unique(mattmc_discovery_spec(script, resolution, blacklisted, entries)->Ok_0.1->0),
{
    let path = script->0;
    match index_named_from(entries, MATTMC_ENTRY_NAME@, 0) {
        Some(k) => {
            lemma_index_named_some(entries, MATTMC_ENTRY_NAME@, 0);
            let r = mattmc_discovery_spec(script, resolution, blacklisted, entries)->Ok_0.1->0;
            assert forall|i: int, j: int|
                0 <= i < r.len() && 0 <= j < r.len() && i != j implies #[trigger] r[i].name
                != #[trigger] r[j].name by {
                assert(r[i].name == entries[i].name);
                assert(r[j].name == entries[j].name);
            }
        },
        None => {
            crate::games::lemma_add_keeps_names_unique(
                MATTMC_ENTRY_NAME@,
                path,
                resolution,
                blacklisted,
                entries,
            );
        },
    }
}

// ---------------------------------------------------------------------------
// Laws of naming ROMs and reading library folders
// ---------------------------------------------------------------------------

/// The name of a discovered ROM is `[` and the system in upper case and `] `, followed
/// by the ROM's file name with exactly its last extension removed: everything before
/// the last `.` when that `.` is not the first character, else the whole file name.
pub proof fn lemma_rom_entry_name_drops_last_extension(
    system: Seq<char>,
    rom_path: Seq<char>,
    n: Seq<char>,
)
    requires
        path_file_name(rom_path) == Some(n),
        n != ".."@,
    ensures
        forall|i: int|
            0 < i && #[trigger] crate::emulation::is_last_index_of(n, '.', i) ==> rom_entry_name(
                system,
                rom_path,
            ) == "["@ + unicode_uppercase(system) + "] "@ + n.take(i),
        crate::text::lacks_char(n, '.') ==> rom_entry_name(system, rom_path) == "["@
            + unicode_uppercase(system) + "] "@ + n,
        (n.len() > 0 && n[0] == '.' && crate::text::lacks_char(n.drop_first(), '.'))
            ==> rom_entry_name(system, rom_path) == "["@ + unicode_uppercase(system) + "] "@ + n,
{
    assert forall|i: int|
        0 < i && #[trigger] crate::emulation::is_last_index_of(n, '.', i) implies rom_entry_name(
            system,
            rom_path,
        ) == "["@ + unicode_uppercase(system) + "] "@ + n.take(i) by {
        let k = crate::emulation::last_dot(n);
        assert(crate::emulation::is_last_index_of(n, '.', k));
        if k < i {
            assert(n[i] == '.');
        } else if k > i {
            assert(n[k] == '.');
        }
        assert(!crate::text::lacks_char(n, '.')) by {
            assert(n[i] == '.');
        }
    }
    if n.len() > 0 && n[0] == '.' && crate::text::lacks_char(n.drop_first(), '.') {
        let k = crate::emulation::last_dot(n);
        assert(crate::emulation::is_last_index_of(n, '.', 0)) by {
            assert forall|j: int| 0 < j < n.len() implies #[trigger] n[j] != '.' by {
                assert(n.drop_first()[j - 1] == n[j]);
            }
        }
        assert(crate::emulation::is_last_index_of(n, '.', k));
        if k > 0 {
            assert(n.drop_first()[k - 1] == n[k]);
        }
    }
}

/// The library folders of a `libraryfolders.vdf` are, one for one and in order, the
/// `path` values of the lines that have one, with doubled backslashes made single:
/// there are as many folders as such lines, and the `k`-th folder comes from the
/// `k`-th such line.
pub proof fn lemma_library_folders_one_per_path_line(lines: Seq<Seq<char>>)
    ensures
        ({
            let with_path = lines.filter(|l: Seq<char>| vdf_value_spec(l, "path"@) is Some);
            let folders = library_folders_spec(lines);
            &&& folders.len() == with_path.len()
            &&& forall|k: int|
                0 <= k < folders.len() ==> #[trigger] folders[k] == collapse_backslashes(
                    vdf_value_spec(with_path[k], "path"@)->Some_0,
                )
        }),
    decreases lines.len(),
{
    reveal(Seq::filter);
    if lines.len() > 0 {
        lemma_library_folders_one_per_path_line(lines.drop_last());
    }
}

} // verus!
