//! Laws of the playlists that span several of their operations.
use vstd::prelude::*;

use crate::text::trim_seq;
use crate::playlists::{
    case_insensitive_index_from, playlist_request_problem, resolve_playlist_spec,
    add_membership, games_of, lemma_add_then_holds, lemma_lower_bound_exists,
    lemma_lower_bound_of_present, lemma_lower_bound_unique, lemma_sorted_insert, memberships_wf,
    playlist_lines, playlist_names, remove_membership, serialize_playlists, sorted_remove,
};

verus! {

/// Keeping the elements that all pass a test keeps the sequence.
proof fn lemma_filter_all_pass<A>(s: Seq<A>, pred: spec_fn(A) -> bool)
    requires
        forall|i: int| 0 <= i < s.len() ==> pred(#[trigger] s[i]),
    ensures
        s.filter(pred) == s,
    decreases s.len(),
{
    reveal(Seq::filter);
    if s.len() > 0 {
        lemma_filter_all_pass(s.drop_last(), pred);
        assert(s.drop_last().push(s.last()) =~= s);
    }
}

/// The playlists file holds nothing for a single playlist without games.
proof fn lemma_serialize_empty_playlist(p: Seq<char>)
    ensures
        serialize_playlists(seq![(p, Seq::<Seq<char>>::empty())]) == Seq::<char>::empty(),
{
    let mid = seq![(p, Seq::<Seq<char>>::empty())];
    assert(mid.drop_last() =~= Seq::<(Seq<char>, Seq<Seq<char>>)>::empty());
    assert(serialize_playlists(mid.drop_last()) == Seq::<char>::empty());
    assert(playlist_lines(p, Seq::<Seq<char>>::empty()) == Seq::<char>::empty());
    assert(serialize_playlists(mid) =~= Seq::<char>::empty());
}

/// Removing an element that was inserted into a sequence without it gives the sequence
/// back.
proof fn lemma_filter_without_inserted<A>(s: Seq<A>, k: int, g: A)
    requires
        0 <= k <= s.len(),
        !s.contains(g),
    ensures
        s.insert(k, g).filter(|y: A| y != g) == s,
    decreases s.len(),
{
    let pred = |y: A| y != g;
    let t = s.insert(k, g);
    reveal(Seq::filter);
    if k == s.len() {
        assert(t.drop_last() =~= s);
        assert(t.last() == g);
        assert forall|i: int| 0 <= i < s.len() implies pred(#[trigger] s[i]) by {
            if s[i] == g {
                assert(s.contains(g));
            }
        }
        lemma_filter_all_pass(s, pred);
    } else {
        let d = s.drop_last();
        assert(t.drop_last() =~= d.insert(k, g));
        assert(t.last() == s.last());
        assert(s.last() != g) by {
            if s.last() == g {
                assert(s.contains(g));
            }
        }
        assert(!d.contains(g)) by {
            if d.contains(g) {
                let j = choose|j: int| 0 <= j < d.len() && d[j] == g;
                assert(s[j] == g);
            }
        }
        lemma_filter_without_inserted(d, k, g);
        assert(d.push(s.last()) =~= s);
    }
}

/// Removing a name that was inserted into a sequence without it gives the sequence back.
proof fn lemma_remove_inserted(s: Seq<Seq<char>>, k: int, g: Seq<char>)
    requires
        0 <= k <= s.len(),
        !s.contains(g),
    ensures
        sorted_remove(s.insert(k, g), g) == s,
{
    lemma_filter_without_inserted(s, k, g);
}

/// The playlists file holds nothing for a playlist without games.
proof fn lemma_serialize_concat(
    a: Seq<(Seq<char>, Seq<Seq<char>>)>,
    b: Seq<(Seq<char>, Seq<Seq<char>>)>,
)
    ensures
        serialize_playlists(a + b) == serialize_playlists(a) + serialize_playlists(b),
    decreases b.len(),
{
    if b.len() == 0 {
        assert(a + b =~= a);
        assert(serialize_playlists(a) + Seq::<char>::empty() =~= serialize_playlists(a));
    } else {
        lemma_serialize_concat(a, b.drop_last());
        assert((a + b).drop_last() =~= a + b.drop_last());
        assert((a + b).last() == b.last());
    }
}

/// Removing a game from a playlist undoes adding it, when the playlist did not hold it:
/// the playlists are as they were when the playlist existed, and the playlists file
/// holds the same lines in every case (a playlist without games has no line).
#[verifier::spinoff_prover]
pub proof fn lemma_remove_undoes_add(m: Seq<(Seq<char>, Seq<Seq<char>>)>, p: Seq<char>, g: Seq<char>)
    requires
        memberships_wf(m),
        !(games_of(m, p) matches Some(games) && games.contains(g)),
    ensures
        games_of(m, p) is Some ==> remove_membership(add_membership(m, p, g), p, g) == m,
        serialize_playlists(remove_membership(add_membership(m, p, g), p, g))
            == serialize_playlists(m),
{
    let names = playlist_names(m);
    let k = lemma_lower_bound_exists(names, p);
    lemma_lower_bound_unique(names, p, k);
    let added = add_membership(m, p, g);
    lemma_add_then_holds(m, p, g);
    if k < m.len() && m[k].0 == p {
        let games = m[k].1;
        assert(!games.contains(g));
        let gk = lemma_lower_bound_exists(games, g);
        lemma_sorted_insert(games, g, gk);
        assert(games.insert(gk, g)[gk] == g);
        if gk < games.len() && games[gk] == g {
            assert(games.contains(g));
        }
        assert(added == m.update(k, (p, games.insert(gk, g))));
        assert(playlist_names(added) =~= names);
        lemma_remove_inserted(games, gk, g);
        assert(remove_membership(added, p, g) =~= m);
    } else {
        assert(added == m.insert(k, (p, seq![g])));
        assert(playlist_names(added) =~= names.insert(k, p));
        assert(added[k].0 == p);
        lemma_lower_bound_of_present(playlist_names(added), p, k);
        let removed = remove_membership(added, p, g);
        lemma_remove_inserted(Seq::empty(), 0, g);
        assert(Seq::<Seq<char>>::empty().insert(0, g) =~= seq![g]);
        assert(sorted_remove(seq![g], g) =~= Seq::<Seq<char>>::empty());
        assert(removed =~= m.insert(k, (p, Seq::empty())));
        let a = m.take(k);
        let b = m.skip(k);
        let mid = seq![(p, Seq::<Seq<char>>::empty())];
        assert(removed =~= a + mid + b);
        lemma_serialize_concat(a + mid, b);
        lemma_serialize_concat(a, mid);
        lemma_serialize_empty_playlist(p);
        lemma_serialize_concat(a, b);
        assert(a + b =~= m);
    }
}

/// Adding a game to a playlist that a name resolves to leaves what the name resolves to
/// unchanged.
pub proof fn lemma_add_keeps_resolution(
    m: Seq<(Seq<char>, Seq<Seq<char>>)>,
    playlist_name: Seq<char>,
    g: Seq<char>,
)
    requires
        memberships_wf(m),
        resolve_playlist_spec(playlist_name, m) is Ok,
    ensures
        resolve_playlist_spec(
            playlist_name,
            add_membership(m, resolve_playlist_spec(playlist_name, m)->Ok_0, g),
        ) == resolve_playlist_spec(playlist_name, m),
{
    let c = resolve_playlist_spec(playlist_name, m)->Ok_0;
    let t = trim_seq(playlist_name);
    let names = playlist_names(m);
    let added = add_membership(m, c, g);
    let builtin = crate::text::eq_ignore_ascii_case_seq(t, crate::playlists::FAVORITES_PLAYLIST_NAME@)
        || crate::text::eq_ignore_ascii_case_seq(t, crate::playlists::STEAM_PLAYLIST_NAME@)
        || crate::text::eq_ignore_ascii_case_seq(t, crate::playlists::EMULATION_PLAYLIST_NAME@);
    if !builtin {
        let k = case_insensitive_index_from(names, t, 0)->Some_0;
        lemma_index_in_range(names, t, 0);
        assert(names[k] == m[k].0);
        lemma_lower_bound_of_present(names, m[k].0, k);
        assert(playlist_names(added) =~= names);
    }
}

/// The case-insensitive lookup finds a position inside the sequence.
proof fn lemma_index_in_range(names: Seq<Seq<char>>, name: Seq<char>, k: int)
    requires
        case_insensitive_index_from(names, name, k) is Some,
    ensures
        ({
            let i = case_insensitive_index_from(names, name, k)->Some_0;
            0 <= i < names.len() && i >= k && crate::text::eq_ignore_ascii_case_seq(names[i], name)
        }),
    decreases names.len() - k,
{
    if 0 <= k < names.len() && !crate::text::eq_ignore_ascii_case_seq(names[k], name) {
        lemma_index_in_range(names, name, k + 1);
    }
}

/// Removing a game from a playlist undoes adding it, through the two requests: when the
/// request is well formed, the playlist name resolves and that playlist does not hold
/// the trimmed game, the name resolves to the same playlist after the game is added (so
/// the removal goes through), and removing it gives back the playlists when the
/// playlist existed, and the same playlists file in every case.
pub proof fn lemma_remove_request_undoes_add_request(
    m: Seq<(Seq<char>, Seq<Seq<char>>)>,
    playlist_name: Seq<char>,
    game_name: Seq<char>,
)
    requires
        memberships_wf(m),
        playlist_request_problem(playlist_name, game_name) is None,
        resolve_playlist_spec(playlist_name, m) is Ok,
        !(games_of(m, resolve_playlist_spec(playlist_name, m)->Ok_0) matches Some(games)
            && games.contains(trim_seq(game_name))),
    ensures
        ({
            let c = resolve_playlist_spec(playlist_name, m)->Ok_0;
            let g = trim_seq(game_name);
            let added = add_membership(m, c, g);
            &&& resolve_playlist_spec(playlist_name, added) == Ok::<Seq<char>, Seq<char>>(c)
            &&& games_of(m, c) is Some ==> remove_membership(added, c, g) == m
            &&& serialize_playlists(remove_membership(added, c, g)) == serialize_playlists(m)
        }),
{
    let c = resolve_playlist_spec(playlist_name, m)->Ok_0;
    lemma_add_keeps_resolution(m, playlist_name, trim_seq(game_name));
    lemma_remove_undoes_add(m, c, trim_seq(game_name));
}

/// A playlist name resolves only to a playlist whose name equals it, trimmed, up to
/// ASCII case: a built-in playlist, or one that exists.
pub proof fn lemma_resolved_name_matches_request(
    playlist_name: Seq<char>,
    m: Seq<(Seq<char>, Seq<Seq<char>>)>,
)
    requires
        resolve_playlist_spec(playlist_name, m) is Ok,
    ensures
        ({
            let c = resolve_playlist_spec(playlist_name, m)->Ok_0;
            &&& crate::text::eq_ignore_ascii_case_seq(trim_seq(playlist_name), c)
            &&& c == crate::playlists::FAVORITES_PLAYLIST_NAME@
                || c == crate::playlists::STEAM_PLAYLIST_NAME@
                || c == crate::playlists::EMULATION_PLAYLIST_NAME@
                || playlist_names(m).contains(c)
        }),
{
    let t = trim_seq(playlist_name);
    let names = playlist_names(m);
    let builtin = crate::text::eq_ignore_ascii_case_seq(t, crate::playlists::FAVORITES_PLAYLIST_NAME@)
        || crate::text::eq_ignore_ascii_case_seq(t, crate::playlists::STEAM_PLAYLIST_NAME@)
        || crate::text::eq_ignore_ascii_case_seq(t, crate::playlists::EMULATION_PLAYLIST_NAME@);
    if !builtin {
        let k = case_insensitive_index_from(names, t, 0)->Some_0;
        lemma_index_in_range(names, t, 0);
        assert(names[k] == m[k].0);
        let c = m[k].0;
        assert(crate::text::eq_ignore_ascii_case_seq(t, c)) by {
            assert forall|i: int| 0 <= i < t.len() implies crate::text::ascii_lower(#[trigger] t[i])
                == crate::text::ascii_lower(c[i]) by {
                assert(crate::text::ascii_lower(c[i]) == crate::text::ascii_lower(t[i]));
            }
        }
        assert(names.contains(c));
    }
}

} // verus!
