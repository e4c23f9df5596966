//! The game list and the playlists together: the operations that change one and keep
//! the other in step with it.
use vstd::prelude::*;

use crate::discovery::{is_stale, merge_all, merge_emulator_entries, merge_start, EmulatorMerge};
use crate::error::CoreError;
use crate::games::{
    ensure_game_exists, find_game_spec, has_name, remove_all_games, remove_game, remove_game_spec,
};
use crate::playlists::{
    add_game_to_playlist, add_membership, any_in_some_playlist, in_some_playlist, kind_games,
    lemma_lower_bound_exists, lemma_removed_everywhere, lemma_sorted_insert, list_playlists,
    list_playlists_spec, memberships_wf, playlist_differs, playlist_names, playlist_request_problem, remove_all_everywhere, remove_everywhere,
    remove_game_from_all_playlists, remove_game_from_playlist, remove_games_from_all_playlists,
    remove_membership, resolve_playlist_spec, set_membership, sync_automatic_playlists,
    Memberships, EMULATION_PLAYLIST_NAME, STEAM_PLAYLIST_NAME,
};
use crate::runners::RunnerKind;
use crate::text::trim_seq;
use crate::types::{entries_view, strings_view, GameEntry, GameEntryView, Playlist};

verus! {

broadcast use vstd::string::group_string_axioms;

/// The names of the entries, in order.
pub open spec fn entry_names(entries: Seq<GameEntryView>) -> Seq<Seq<char>> {
    Seq::new(entries.len(), |i: int| entries[i].name)
}

/// Removes the game `name` from the game list and from every playlist. Gives the
/// remaining entries and whether a playlist changed; refused, with nothing changed, when
/// the name is empty or no game has it.
pub fn remove_game_everywhere(name: &str, entries: &[GameEntry], memberships: &mut Memberships) -> (r:
    Result<(Vec<GameEntry>, bool), CoreError>)
    requires
        old(memberships).wf(),
    ensures
        final(memberships).wf(),
        match remove_game_spec(name@, entries_view(entries@)) {
            Ok(s) => r matches Ok(v) && entries_view(v.0@) == s && final(memberships)@
                == remove_everywhere(old(memberships)@, name@) && v.1 == in_some_playlist(
                old(memberships)@,
                name@,
            ),
            Err(m) => r matches Err(e) && e@ == m && final(memberships)@ == old(memberships)@,
        },
{
    let remaining = remove_game(name, entries)?;
    let changed = remove_game_from_all_playlists(name, memberships);
    Ok((remaining, changed))
}

/// Removes every game from the game list and their names from every playlist. Gives how
/// many games there were and whether a playlist changed; the game list is then empty.
pub fn remove_all_games_everywhere(entries: &[GameEntry], memberships: &mut Memberships) -> (r: (
    usize,
    bool,
))
    requires
        old(memberships).wf(),
    ensures
        final(memberships).wf(),
        r.0 == entries@.len(),
        final(memberships)@ == remove_all_everywhere(
            old(memberships)@,
            entry_names(entries_view(entries@)),
        ),
        r.1 == any_in_some_playlist(old(memberships)@, entry_names(entries_view(entries@))),
{
    let (count, names) = remove_all_games(entries);
    assert(strings_view(names@) =~= entry_names(entries_view(entries@)));
    let changed = remove_games_from_all_playlists(&names, memberships);
    (count, changed)
}

/// Adds the registered game `game_name` to the playlist that `playlist_name` stands for;
/// refused, with nothing changed, when no game has that exact name, or as
/// `add_game_to_playlist` refuses.
pub fn add_existing_game_to_playlist(
    playlist_name: &str,
    game_name: &str,
    entries: &[GameEntry],
    memberships: &mut Memberships,
) -> (r: Result<(), CoreError>)
    requires
        old(memberships).wf(),
    ensures
        final(memberships).wf(),
        match find_game_spec(game_name@, entries_view(entries@)) {
            Err(m) => r matches Err(e) && e@ == m && final(memberships)@ == old(memberships)@,
            Ok(_) => match playlist_request_problem(playlist_name@, game_name@) {
                Some(m) => r matches Err(e) && e@ == m && final(memberships)@ == old(memberships)@,
                None => match resolve_playlist_spec(playlist_name@, old(memberships)@) {
                    Err(m) => r matches Err(e) && e@ == m && final(memberships)@ == old(
                        memberships,
                    )@,
                    Ok(p) => r is Ok && final(memberships)@ == add_membership(
                        old(memberships)@,
                        p,
                        trim_seq(game_name@),
                    ),
                },
            },
        },
{
    ensure_game_exists(game_name, entries)?;
    add_game_to_playlist(playlist_name, game_name, memberships)
}

/// Removes the registered game `game_name` from the playlist that `playlist_name` stands
/// for; refused, with nothing changed, when no game has that exact name, or as
/// `remove_game_from_playlist` refuses.
pub fn remove_existing_game_from_playlist(
    playlist_name: &str,
    game_name: &str,
    entries: &[GameEntry],
    memberships: &mut Memberships,
) -> (r: Result<(), CoreError>)
    requires
        old(memberships).wf(),
    ensures
        final(memberships).wf(),
        match find_game_spec(game_name@, entries_view(entries@)) {
            Err(m) => r matches Err(e) && e@ == m && final(memberships)@ == old(memberships)@,
            Ok(_) => match playlist_request_problem(playlist_name@, game_name@) {
                Some(m) => r matches Err(e) && e@ == m && final(memberships)@ == old(memberships)@,
                None => match resolve_playlist_spec(playlist_name@, old(memberships)@) {
                    Err(m) => r matches Err(e) && e@ == m && final(memberships)@ == old(
                        memberships,
                    )@,
                    Ok(p) => r is Ok && final(memberships)@ == remove_membership(
                        old(memberships)@,
                        p,
                        trim_seq(game_name@),
                    ),
                },
            },
        },
{
    ensure_game_exists(game_name, entries)?;
    remove_game_from_playlist(playlist_name, game_name, memberships)
}

/// The playlists after the Steam and Emulation playlists are made to hold exactly the
/// Steam and emulated games of `entries`.
pub open spec fn synced_memberships(
    m: Seq<(Seq<char>, Seq<Seq<char>>)>,
    entries: Seq<GameEntryView>,
) -> Seq<(Seq<char>, Seq<Seq<char>>)> {
    set_membership(
        set_membership(m, STEAM_PLAYLIST_NAME@, kind_games(entries, RunnerKind::Steam)),
        EMULATION_PLAYLIST_NAME@,
        kind_games(entries, RunnerKind::Emulator),
    )
}

/// Brings the Steam and Emulation playlists in line with the game list, then lists the
/// playlists; says whether the playlists changed.
pub fn list_playlists_synced(memberships: &mut Memberships, entries: &[GameEntry]) -> (r: (
    Vec<Playlist>,
    bool,
))
    requires
        old(memberships).wf(),
    ensures
        final(memberships).wf(),
        final(memberships)@ == synced_memberships(old(memberships)@, entries_view(entries@)),
        crate::playlists::playlists_view(r.0@) == list_playlists_spec(final(memberships)@),
        r.1 == (playlist_differs(
            old(memberships)@,
            STEAM_PLAYLIST_NAME@,
            kind_games(entries_view(entries@), RunnerKind::Steam),
        ) || playlist_differs(
            old(memberships)@,
            EMULATION_PLAYLIST_NAME@,
            kind_games(entries_view(entries@), RunnerKind::Emulator),
        )),
{
    let changed = sync_automatic_playlists(memberships, entries);
    let listed = list_playlists(memberships);
    (listed, changed)
}

/// The names of the managed emulator entries whose ROM was not discovered, in list
/// order.
pub open spec fn stale_names(entries: Seq<GameEntryView>, discovered: Seq<GameEntryView>) -> Seq<
    Seq<char>,
> {
    entry_names(entries.filter(|e: GameEntryView| is_stale(e, discovered)))
}

/// The playlists after an emulator discovery that changed the game list into `after`:
/// the stale names are taken out of every playlist, then the Steam and Emulation
/// playlists are brought in line with the new list.
pub open spec fn memberships_after_discovery(
    m: Seq<(Seq<char>, Seq<Seq<char>>)>,
    stale: Seq<Seq<char>>,
    after: Seq<GameEntryView>,
) -> Seq<(Seq<char>, Seq<Seq<char>>)> {
    synced_memberships(remove_all_everywhere(m, stale), after)
}

/// Merges the entries found by emulator discovery into the game list (as
/// `merge_emulator_entries` does) and, when the list changed, takes the names of the
/// dropped entries out of every playlist and brings the Steam and Emulation playlists in
/// line with the new list. Gives the merge and whether the playlists changed.
pub fn discover_emulator_entries(
    discovered: &[GameEntry],
    entries: &[GameEntry],
    memberships: &mut Memberships,
) -> (r: (EmulatorMerge, bool))
    requires
        old(memberships).wf(),
    ensures
        final(memberships).wf(),
        ({
            let dv = entries_view(discovered@);
            let ev = entries_view(entries@);
            let s = merge_all(merge_start(ev, dv), dv);
            let stale = stale_names(ev, dv);
            let m = old(memberships)@;
            let m1 = remove_all_everywhere(m, stale);
            &&& entries_view(r.0.entries@) == s.entries
            &&& r.0.report.found == dv.len()
            &&& r.0.report.added == s.added
            &&& r.0.report.updated == s.updated
            &&& r.0.report.already_exists == s.already_exists
            &&& r.0.changed == s.changed
            &&& strings_view(r.0.removed_names@) == stale
            &&& s.changed ==> final(memberships)@ == memberships_after_discovery(m, stale, s.entries)
            &&& !s.changed ==> final(memberships)@ == m
            &&& r.1 == (s.changed && (any_in_some_playlist(m, stale) || playlist_differs(
                m1,
                STEAM_PLAYLIST_NAME@,
                kind_games(s.entries, RunnerKind::Steam),
            ) || playlist_differs(
                m1,
                EMULATION_PLAYLIST_NAME@,
                kind_games(s.entries, RunnerKind::Emulator),
            )))
        }),
{
    let merge = merge_emulator_entries(discovered, entries);
    let ghost dv = entries_view(discovered@);
    let ghost ev = entries_view(entries@);
    assert(strings_view(merge.removed_names@) =~= stale_names(ev, dv));
    if !merge.changed {
        return (merge, false);
    }
    let removed = remove_games_from_all_playlists(&merge.removed_names, memberships);
    let synced = sync_automatic_playlists(memberships, &merge.entries);
    (merge, removed || synced)
}

// ---------------------------------------------------------------------------
// Laws
// ---------------------------------------------------------------------------

/// A game that is removed is afterwards neither in the game list nor in any playlist.
pub proof fn lemma_removed_game_is_gone(
    name: Seq<char>,
    entries: Seq<GameEntryView>,
    m: Seq<(Seq<char>, Seq<Seq<char>>)>,
)
    requires
        memberships_wf(m),
        remove_game_spec(name, entries) is Ok,
    ensures
        !has_name(remove_game_spec(name, entries)->Ok_0, name),
        !in_some_playlist(remove_everywhere(m, name), name),
{
    let rest = entries.filter(|e: GameEntryView| e.name != name);
    assert forall|i: int| 0 <= i < rest.len() implies #[trigger] rest[i].name != name by {
        entries.lemma_filter_pred(|e: GameEntryView| e.name != name, i);
    }
    lemma_removed_everywhere(m, name);
}

/// A name that is in a playlist after its games are replaced was there before, or is
/// one of the new games.
proof fn lemma_in_playlist_after_set(
    m: Seq<(Seq<char>, Seq<Seq<char>>)>,
    p: Seq<char>,
    games: Seq<Seq<char>>,
    g: Seq<char>,
)
    requires
        in_some_playlist(set_membership(m, p, games), g),
    ensures
        in_some_playlist(m, g) || games.contains(g),
{
    let r = set_membership(m, p, games);
    let names = playlist_names(m);
    let k = crate::playlists::lower_bound(names, p);
    lemma_lower_bound_exists(names, p);
    assert(crate::playlists::is_lower_bound(names, p, k));
    let i = choose|i: int| 0 <= i < r.len() && #[trigger] r[i].1.contains(g);
    if k < m.len() && m[k].0 == p {
        if i != k {
            assert(r[i] == m[i]);
        }
    } else {
        if i < k {
            assert(r[i] == m[i]);
        } else if i > k {
            assert(r[i] == m[i - 1]);
        }
    }
}

/// Every name among the games of a kind is the name of an entry.
proof fn lemma_kind_games_named(entries: Seq<GameEntryView>, kind: RunnerKind, g: Seq<char>)
    requires
        kind_games(entries, kind).contains(g),
    ensures
        has_name(entries, g),
    decreases entries.len(),
{
    if entries.len() > 0 {
        let prev = kind_games(entries.drop_last(), kind);
        let last = entries.last();
        if last.runner_kind == kind && g == last.name {
            assert(entries[entries.len() - 1].name == g);
        } else {
            if last.runner_kind == kind {
                crate::playlists::lemma_kind_games_sorted(entries.drop_last(), kind);
                let k = lemma_lower_bound_exists(prev, last.name);
                lemma_sorted_insert(prev, last.name, k);
                assert(crate::playlists::sorted_insert(prev, last.name).to_set().contains(g));
                assert(prev.to_set().contains(g));
            }
            lemma_kind_games_named(entries.drop_last(), kind, g);
            let j = choose|j: int| 0 <= j < entries.len() - 1 && #[trigger] entries.drop_last()[j].name == g;
            assert(entries[j].name == g);
        }
    }
}

/// After an emulator discovery that changed the game list, a dropped name that no entry
/// of the new list has is in no playlist.
pub proof fn lemma_discovery_drops_stale_names(
    m: Seq<(Seq<char>, Seq<Seq<char>>)>,
    stale: Seq<Seq<char>>,
    after: Seq<GameEntryView>,
    g: Seq<char>,
)
    requires
        memberships_wf(m),
        stale.contains(g),
        !has_name(after, g),
    ensures
        !in_some_playlist(memberships_after_discovery(m, stale, after), g),
{
    let m1 = remove_all_everywhere(m, stale);
    let m2 = set_membership(m1, STEAM_PLAYLIST_NAME@, kind_games(after, RunnerKind::Steam));
    let m3 = set_membership(m2, EMULATION_PLAYLIST_NAME@, kind_games(after, RunnerKind::Emulator));
    assert(!in_some_playlist(m1, g)) by {
        if in_some_playlist(m1, g) {
            let i = choose|i: int| 0 <= i < m1.len() && #[trigger] m1[i].1.contains(g);
            let pred = |y: Seq<char>| !stale.contains(y);
            let j = choose|j: int| 0 <= j < m1[i].1.len() && m1[i].1[j] == g;
            m[i].1.lemma_filter_pred(pred, j);
        }
    }
    if in_some_playlist(m3, g) {
        lemma_in_playlist_after_set(m2, EMULATION_PLAYLIST_NAME@, kind_games(after, RunnerKind::Emulator), g);
        if kind_games(after, RunnerKind::Emulator).contains(g) {
            lemma_kind_games_named(after, RunnerKind::Emulator, g);
        } else {
            lemma_in_playlist_after_set(m1, STEAM_PLAYLIST_NAME@, kind_games(after, RunnerKind::Steam), g);
            if kind_games(after, RunnerKind::Steam).contains(g) {
                lemma_kind_games_named(after, RunnerKind::Steam, g);
            }
        }
    }
}

/// After every game is removed, no playlist holds the name of a game that was in the
/// list.
pub proof fn lemma_removed_games_are_gone(
    entries: Seq<GameEntryView>,
    m: Seq<(Seq<char>, Seq<Seq<char>>)>,
)
    requires
        memberships_wf(m),
    ensures
        !any_in_some_playlist(remove_all_everywhere(m, entry_names(entries)), entry_names(entries)),
{
    let names = entry_names(entries);
    let r = remove_all_everywhere(m, names);
    assert forall|i: int, j: int| 0 <= i < r.len() && 0 <= j < r[i].1.len() implies !names.contains(
        #[trigger] r[i].1[j],
    ) by {
        let pred = |y: Seq<char>| !names.contains(y);
        m[i].1.lemma_filter_pred(pred, j);
    }
}

/// A game that no entry names cannot be added to a playlist, and the playlists stay as
/// they were.
pub proof fn lemma_unregistered_game_is_refused(game_name: Seq<char>, entries: Seq<GameEntryView>)
    requires
        !has_name(entries, game_name),
    ensures
        find_game_spec(game_name, entries) is Err,
        game_name.len() > 0 ==> find_game_spec(game_name, entries) == Err::<GameEntryView, Seq<char>>(
            "No game found with name '"@ + game_name + "'"@,
        ),
{
}

/// After listing, the Steam and Emulation playlists hold exactly the Steam and emulated
/// games of the game list, in ascending order.
pub proof fn lemma_listed_automatic_playlists(
    m: Seq<(Seq<char>, Seq<Seq<char>>)>,
    entries: Seq<GameEntryView>,
)
    requires
        memberships_wf(m),
    ensures
        ({
            let listed = list_playlists_spec(synced_memberships(m, entries));
            &&& listed[1] == (STEAM_PLAYLIST_NAME@, kind_games(entries, RunnerKind::Steam))
            &&& listed[2] == (EMULATION_PLAYLIST_NAME@, kind_games(entries, RunnerKind::Emulator))
        }),
{
    crate::playlists::lemma_sync_automatic_settles(m, entries);
    crate::playlists::lemma_kind_games_sorted(entries, RunnerKind::Steam);
    crate::playlists::lemma_kind_games_sorted(entries, RunnerKind::Emulator);
}

} // verus!
