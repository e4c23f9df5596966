//! Playlists: which games each playlist holds, kept in ascending order of playlist name
//! and, within a playlist, of game name (the order in which they are listed and
//! stored), and the text file format that stores them.
use vstd::prelude::*;

use crate::error::CoreError;
use crate::runners::RunnerKind;
use crate::text::{
    lacks_char, after_char, append_str, before_char, chars_eq, chars_eq_ignore_ascii_case, chars_of,
    compare_chars, eq_ignore_ascii_case_seq, index_of_char, lemma_seq_less_irreflexive, lemma_seq_less_total, lemma_seq_less_transitive, lines_of_str,
    lines_seq, seq_less, split_once_char, string_of, trim_chars, trim_seq, vecs_view,
};
use crate::types::{entries_view, strings_view, GameEntry, GameEntryView, Playlist};

verus! {

broadcast use vstd::string::group_string_axioms;

/// The playlist of favourite games.
pub const FAVORITES_PLAYLIST_NAME: &'static str = "Favorites";

/// The playlist kept equal to the set of Steam games.
pub const STEAM_PLAYLIST_NAME: &'static str = "Steam";

/// The playlist kept equal to the set of emulated games.
pub const EMULATION_PLAYLIST_NAME: &'static str = "Emulation";

/// The file, in the launcher's directory, that stores the playlists.
pub const PLAYLISTS_FILE_NAME: &'static str = "playlists.tsv";

// ---------------------------------------------------------------------------
// Sorted sequences of names
// ---------------------------------------------------------------------------

/// Whether `s` is in strictly ascending order.
pub open spec fn sorted_names(s: Seq<Seq<char>>) -> bool {
    forall|i: int, j: int| 0 <= i < j < s.len() ==> seq_less(#[trigger] s[i], #[trigger] s[j])
}

/// Whether `k` is where `x` belongs in `s`: after every element less than `x`, and at
/// an element that is not.
pub open spec fn is_lower_bound(s: Seq<Seq<char>>, x: Seq<char>, k: int) -> bool {
    &&& 0 <= k <= s.len()
    &&& forall|j: int| 0 <= j < k ==> seq_less(#[trigger] s[j], x)
    &&& k < s.len() ==> !seq_less(s[k], x)
}

/// Where `x` belongs in `s`.
pub open spec fn lower_bound(s: Seq<Seq<char>>, x: Seq<char>) -> int {
    choose|k: int| is_lower_bound(s, x, k)
}

/// `s` with `x` added in its place, unless it is there already.
pub open spec fn sorted_insert(s: Seq<Seq<char>>, x: Seq<char>) -> Seq<Seq<char>> {
    let k = lower_bound(s, x);
    if k < s.len() && s[k] == x {
        s
    } else {
        s.insert(k, x)
    }
}

/// `s` without `x`.
pub open spec fn sorted_remove(s: Seq<Seq<char>>, x: Seq<char>) -> Seq<Seq<char>> {
    s.filter(|y: Seq<char>| y != x)
}

/// There is only one place where `x` belongs.
pub proof fn lemma_lower_bound_unique(s: Seq<Seq<char>>, x: Seq<char>, k: int)
    requires
        is_lower_bound(s, x, k),
    ensures
        lower_bound(s, x) == k,
{
    let m = lower_bound(s, x);
    assert(is_lower_bound(s, x, m));
    if m < k {
        assert(seq_less(s[m], x));
    } else if m > k {
        assert(seq_less(s[k], x));
    }
}

/// Adding `x` in its place keeps a sequence in strictly ascending order, and adds `x`
/// to its elements.
pub proof fn lemma_sorted_insert(s: Seq<Seq<char>>, x: Seq<char>, k: int)
    requires
        sorted_names(s),
        is_lower_bound(s, x, k),
    ensures
        sorted_names(sorted_insert(s, x)),
        sorted_insert(s, x).to_set() == s.to_set().insert(x),
        k < s.len() && s[k] == x ==> sorted_insert(s, x) == s,
        !(k < s.len() && s[k] == x) ==> sorted_insert(s, x) == s.insert(k, x),
{
    lemma_lower_bound_unique(s, x, k);
    let r = sorted_insert(s, x);
    if k < s.len() && s[k] == x {
        assert(s.to_set().insert(x) =~= s.to_set()) by {
            assert(s.contains(x)) by {
                assert(s[k] == x);
            }
        }
    } else {
        if k < s.len() {
            lemma_seq_less_total(s[k], x);
        }
        assert forall|a: int, b: int| 0 <= a < b < r.len() implies seq_less(
            #[trigger] r[a],
            #[trigger] r[b],
        ) by {
            if b < k {
                assert(r[a] == s[a] && r[b] == s[b]);
            } else if b == k {
                assert(r[a] == s[a]);
            } else if a == k {
                assert(r[b] == s[b - 1]);
                if b - 1 > k {
                    assert(seq_less(s[k], s[b - 1]));
                    lemma_seq_less_transitive(x, s[k], s[b - 1]);
                }
            } else if a < k {
                assert(r[a] == s[a] && r[b] == s[b - 1]);
                assert(seq_less(s[a], x));
                if b - 1 >= k {
                    if b - 1 == k {
                        lemma_seq_less_transitive(s[a], x, s[k]);
                    } else {
                        lemma_seq_less_transitive(x, s[k], s[b - 1]);
                        lemma_seq_less_transitive(s[a], x, s[b - 1]);
                    }
                }
            } else {
                assert(r[a] == s[a - 1] && r[b] == s[b - 1]);
            }
        }
        assert(r.to_set() =~= s.to_set().insert(x)) by {
            assert forall|y: Seq<char>| r.to_set().contains(y) implies s.to_set().insert(x).contains(
                y,
            ) by {
                let i = choose|i: int| 0 <= i < r.len() && r[i] == y;
                if i < k {
                    assert(s[i] == y);
                } else if i > k {
                    assert(s[i - 1] == y);
                }
            }
            assert forall|y: Seq<char>| s.to_set().insert(x).contains(y) implies r.to_set().contains(
                y,
            ) by {
                if y == x {
                    assert(r[k] == x);
                } else {
                    let i = choose|i: int| 0 <= i < s.len() && s[i] == y;
                    if i < k {
                        assert(r[i] == y);
                    } else {
                        assert(r[i + 1] == y);
                    }
                }
            }
        }
    }
}

/// Where `x` belongs in `v`, and whether it is there.
fn find_lower_bound(v: &Vec<String>, x: &Vec<char>) -> (r: usize)
    ensures
        is_lower_bound(strings_view(v@), x@, r as int),
{
    let ghost s = strings_view(v@);
    let mut i: usize = 0;
    while i < v.len()
        invariant
            i <= v@.len(),
            s == strings_view(v@),
            forall|j: int| 0 <= j < i ==> seq_less(#[trigger] s[j], x@),
        decreases v.len() - i,
    {
        assert(s[i as int] == v@[i as int]@);
        if compare_chars(&chars_of(v[i].as_str()), x) >= 0 {
            return i;
        }
        i += 1;
    }
    i
}

/// Adds `x` to the sorted names `v` in its place, unless it is there already.
pub fn insert_name(v: &mut Vec<String>, x: &str)
    requires
        sorted_names(strings_view(old(v)@)),
    ensures
        strings_view(final(v)@) == sorted_insert(strings_view(old(v)@), x@),
        sorted_names(strings_view(final(v)@)),
        strings_view(final(v)@).to_set() == strings_view(old(v)@).to_set().insert(x@),
{
    let xv = chars_of(x);
    let k = find_lower_bound(v, &xv);
    proof {
        lemma_sorted_insert(strings_view(v@), x@, k as int);
    }
    if k < v.len() && chars_eq(&chars_of(v[k].as_str()), &xv) {
        return;
    }
    let ghost before = strings_view(v@);
    v.insert(k, x.to_owned());
    assert(strings_view(v@) =~= before.insert(k as int, x@));
}

/// Whether `x` is among the names `v`.
pub fn contains_name(v: &Vec<String>, x: &str) -> (r: bool)
    ensures
        r == strings_view(v@).contains(x@),
{
    let ghost s = strings_view(v@);
    let xv = chars_of(x);
    let mut i: usize = 0;
    while i < v.len()
        invariant
            i <= v@.len(),
            s == strings_view(v@),
            xv@ == x@,
            forall|j: int| 0 <= j < i ==> #[trigger] s[j] != x@,
        decreases v.len() - i,
    {
        assert(s[i as int] == v@[i as int]@);
        if chars_eq(&chars_of(v[i].as_str()), &xv) {
            return true;
        }
        i += 1;
    }
    false
}

/// Removing elements keeps a sequence in strictly ascending order.
pub proof fn lemma_filter_sorted(s: Seq<Seq<char>>, pred: spec_fn(Seq<char>) -> bool)
    requires
        sorted_names(s),
    ensures
        sorted_names(s.filter(pred)),
        forall|y: Seq<char>| #[trigger] s.filter(pred).contains(y) <==> s.contains(y) && pred(y),
    decreases s.len(),
{
    reveal(Seq::filter);
    if s.len() > 0 {
        let t = s.drop_last();
        assert(sorted_names(t)) by {
            assert forall|i: int, j: int| 0 <= i < j < t.len() implies seq_less(
                #[trigger] t[i],
                #[trigger] t[j],
            ) by {
                assert(t[i] == s[i] && t[j] == s[j]);
            }
        }
        lemma_filter_sorted(t, pred);
        let f = t.filter(pred);
        assert forall|y: Seq<char>| #[trigger] s.filter(pred).contains(y) <==> s.contains(y) && pred(
            y,
        ) by {
            if s.contains(y) && pred(y) {
                let i = choose|i: int| 0 <= i < s.len() && s[i] == y;
                if i < t.len() {
                    assert(t[i] == y);
                    assert(t.contains(y));
                } else {
                    assert(s.filter(pred) == f.push(s.last()));
                    assert(s.filter(pred)[f.len() as int] == y);
                }
            }
            if s.filter(pred).contains(y) {
                let i = choose|i: int| 0 <= i < s.filter(pred).len() && s.filter(pred)[i] == y;
                if pred(s.last()) {
                    if i < f.len() {
                        assert(f[i] == y);
                        assert(f.contains(y));
                        let k = choose|k: int| 0 <= k < t.len() && t[k] == y;
                        assert(s[k] == y);
                    } else {
                        assert(s[s.len() - 1] == y);
                    }
                } else {
                    assert(f.contains(y));
                    let k = choose|k: int| 0 <= k < t.len() && t[k] == y;
                    assert(s[k] == y);
                }
            }
        }
        if pred(s.last()) {
            let r = f.push(s.last());
            assert forall|i: int, j: int| 0 <= i < j < r.len() implies seq_less(
                #[trigger] r[i],
                #[trigger] r[j],
            ) by {
                if j == f.len() {
                    assert(f.contains(r[i]));
                    let k = choose|k: int| 0 <= k < t.len() && t[k] == r[i];
                    assert(s[k] == r[i]);
                    assert(seq_less(s[k], s[s.len() - 1]));
                } else {
                    assert(r[i] == f[i] && r[j] == f[j]);
                }
            }
        }
    }
}

/// Removes `x` from the sorted names `v`.
pub fn remove_name(v: &mut Vec<String>, x: &str) -> (removed: bool)
    requires
        sorted_names(strings_view(old(v)@)),
    ensures
        strings_view(final(v)@) == sorted_remove(strings_view(old(v)@), x@),
        sorted_names(strings_view(final(v)@)),
        removed == strings_view(old(v)@).contains(x@),
{
    let ghost s = strings_view(v@);
    let ghost pred = |y: Seq<char>| y != x@;
    proof {
        lemma_filter_sorted(s, pred);
    }
    let xv = chars_of(x);
    let mut out: Vec<String> = Vec::new();
    let mut removed = false;
    let mut i: usize = 0;
    while i < v.len()
        invariant
            i <= v@.len(),
            s == strings_view(v@),
            xv@ == x@,
            pred == (|y: Seq<char>| y != x@),
            strings_view(out@) == s.take(i as int).filter(pred),
            removed == s.take(i as int).contains(x@),
        decreases v.len() - i,
    {
        let ghost t = s.take(i + 1);
        assert(t.drop_last() =~= s.take(i as int));
        assert(t.last() == v@[i as int]@);
        proof {
            reveal(Seq::filter);
        }
        let ghost before = strings_view(out@);
        if chars_eq(&chars_of(v[i].as_str()), &xv) {
            removed = true;
            assert(t[i as int] == x@);
        } else {
            out.push(v[i].clone());
            assert(strings_view(out@) =~= before.push(v@[i as int]@));
        }
        assert(removed == t.contains(x@)) by {
            if t.contains(x@) {
                let k = choose|k: int| 0 <= k < t.len() && t[k] == x@;
                if k < i {
                    assert(s.take(i as int)[k] == x@);
                }
            }
            if s.take(i as int).contains(x@) {
                let k = choose|k: int| 0 <= k < i && s.take(i as int)[k] == x@;
                assert(t[k] == x@);
            }
        }
        i += 1;
    }
    assert(s.take(v@.len() as int) =~= s);
    *v = out;
    removed
}

// ---------------------------------------------------------------------------
// Playlist memberships
// ---------------------------------------------------------------------------

/// The contents of playlists: each playlist's name with the names of its games.
pub open spec fn playlists_view(v: Seq<Playlist>) -> Seq<(Seq<char>, Seq<Seq<char>>)> {
    Seq::new(v.len(), |i: int| (v[i].name@, strings_view(v[i].game_names@)))
}

/// The names of playlists, in order.
pub open spec fn playlist_names(m: Seq<(Seq<char>, Seq<Seq<char>>)>) -> Seq<Seq<char>> {
    Seq::new(m.len(), |i: int| m[i].0)
}

/// Whether playlists are in strictly ascending order of name, each with its games in
/// strictly ascending order of name.
pub open spec fn memberships_wf(m: Seq<(Seq<char>, Seq<Seq<char>>)>) -> bool {
    &&& sorted_names(playlist_names(m))
    &&& forall|i: int| 0 <= i < m.len() ==> sorted_names(#[trigger] m[i].1)
}

/// The playlists after adding game `g` to playlist `p`, which is created when missing.
pub open spec fn add_membership(m: Seq<(Seq<char>, Seq<Seq<char>>)>, p: Seq<char>, g: Seq<char>) -> Seq<
    (Seq<char>, Seq<Seq<char>>),
> {
    let k = lower_bound(playlist_names(m), p);
    if k < m.len() && m[k].0 == p {
        m.update(k, (p, sorted_insert(m[k].1, g)))
    } else {
        m.insert(k, (p, seq![g]))
    }
}

/// The playlists after replacing the games of playlist `p` (created when missing) by
/// `games`.
pub open spec fn set_membership(
    m: Seq<(Seq<char>, Seq<Seq<char>>)>,
    p: Seq<char>,
    games: Seq<Seq<char>>,
) -> Seq<(Seq<char>, Seq<Seq<char>>)> {
    let k = lower_bound(playlist_names(m), p);
    if k < m.len() && m[k].0 == p {
        m.update(k, (p, games))
    } else {
        m.insert(k, (p, games))
    }
}

/// The playlists after removing game `g` from playlist `p`, if there is one.
pub open spec fn remove_membership(
    m: Seq<(Seq<char>, Seq<Seq<char>>)>,
    p: Seq<char>,
    g: Seq<char>,
) -> Seq<(Seq<char>, Seq<Seq<char>>)> {
    let k = lower_bound(playlist_names(m), p);
    if k < m.len() && m[k].0 == p {
        m.update(k, (p, sorted_remove(m[k].1, g)))
    } else {
        m
    }
}

/// The games of playlist `p`, if there is one.
pub open spec fn games_of(m: Seq<(Seq<char>, Seq<Seq<char>>)>, p: Seq<char>) -> Option<
    Seq<Seq<char>>,
> {
    let k = lower_bound(playlist_names(m), p);
    if k < m.len() && m[k].0 == p {
        Some(m[k].1)
    } else {
        None
    }
}

/// The playlists, kept in ascending order of name with their games in ascending order.
pub struct Memberships {
    playlists: Vec<Playlist>,
}

impl View for Memberships {
    type V = Seq<(Seq<char>, Seq<Seq<char>>)>;

    closed spec fn view(&self) -> Seq<(Seq<char>, Seq<Seq<char>>)> {
        playlists_view(self.playlists@)
    }
}

/// Inserting a name in its place, or leaving it where it is, keeps the names sorted.
proof fn lemma_set_membership_wf(
    m: Seq<(Seq<char>, Seq<Seq<char>>)>,
    p: Seq<char>,
    games: Seq<Seq<char>>,
    k: int,
)
    requires
        memberships_wf(m),
        sorted_names(games),
        is_lower_bound(playlist_names(m), p, k),
    ensures
        memberships_wf(set_membership(m, p, games)),
        lower_bound(playlist_names(m), p) == k,
{
    let names = playlist_names(m);
    lemma_sorted_insert(names, p, k);
    let r = set_membership(m, p, games);
    if k < m.len() && m[k].0 == p {
        assert(playlist_names(r) =~= names);
    } else {
        assert(playlist_names(r) =~= names.insert(k, p));
    }
    assert forall|i: int| 0 <= i < r.len() implies sorted_names(#[trigger] r[i].1) by {
        if k < m.len() && m[k].0 == p {
            if i != k {
                assert(r[i] == m[i]);
            }
        } else if i < k {
            assert(r[i] == m[i]);
        } else if i > k {
            assert(r[i] == m[i - 1]);
        }
    }
}

impl Memberships {
    /// Whether the playlists are in order.
    pub closed spec fn wf(&self) -> bool {
        memberships_wf(self@)
    }

    /// No playlists.
    pub fn new() -> (r: Memberships)
        ensures
            r.wf(),
            r@ == Seq::<(Seq<char>, Seq<Seq<char>>)>::empty(),
    {
        let r = Memberships { playlists: Vec::new() };
        assert(r@ =~= Seq::<(Seq<char>, Seq<Seq<char>>)>::empty());
        r
    }

    /// Where the playlist `name` is or belongs.
    fn position(&self, name: &Vec<char>) -> (r: usize)
        ensures
            is_lower_bound(playlist_names(self@), name@, r as int),
    {
        let ghost s = playlist_names(self@);
        let mut i: usize = 0;
        while i < self.playlists.len()
            invariant
                i <= self.playlists@.len(),
                s == playlist_names(self@),
                s.len() == self.playlists@.len(),
                forall|j: int| 0 <= j < i ==> seq_less(#[trigger] s[j], name@),
            decreases self.playlists.len() - i,
        {
            assert(s[i as int] == self.playlists@[i as int].name@);
            if compare_chars(&chars_of(self.playlists[i].name.as_str()), name) >= 0 {
                return i;
            }
            i += 1;
        }
        i
    }

    /// Whether the playlist at `k` is named `name`.
    fn is_named(&self, k: usize, name: &Vec<char>) -> (r: bool)
        ensures
            r == (k < self@.len() && self@[k as int].0 == name@),
    {
        if k < self.playlists.len() {
            chars_eq(&chars_of(self.playlists[k].name.as_str()), name)
        } else {
            false
        }
    }

    /// Adds game `game` to playlist `playlist`, creating the playlist when missing.
    pub fn add_game(&mut self, playlist: &str, game: &str)
        requires
            old(self).wf(),
        ensures
            final(self).wf(),
            final(self)@ == add_membership(old(self)@, playlist@, game@),
    {
        let ghost m = self@;
        let name = chars_of(playlist);
        let k = self.position(&name);
        proof {
            lemma_lower_bound_unique(playlist_names(m), playlist@, k as int);
        }
        if self.is_named(k, &name) {
            let mut games = Vec::new();
            std::mem::swap(&mut games, &mut self.playlists[k].game_names);
            assert(strings_view(games@) == m[k as int].1);
            insert_name(&mut games, game);
            proof {
                lemma_set_membership_wf(m, playlist@, strings_view(games@), k as int);
            }
            self.playlists[k].game_names = games;
            assert(self@ =~= m.update(k as int, (playlist@, sorted_insert(m[k as int].1, game@))));
        } else {
            let games = vec![game.to_owned()];
            assert(strings_view(games@) =~= seq![game@]);
            proof {
                lemma_set_membership_wf(m, playlist@, seq![game@], k as int);
            }
            self.playlists.insert(k, Playlist { name: playlist.to_owned(), game_names: games });
            assert(self@ =~= m.insert(k as int, (playlist@, seq![game@])));
        }
    }

    /// Replaces the games of playlist `playlist` (created when missing) by `games`.
    pub fn set_games(&mut self, playlist: &str, games: Vec<String>)
        requires
            old(self).wf(),
            sorted_names(strings_view(games@)),
        ensures
            final(self).wf(),
            final(self)@ == set_membership(old(self)@, playlist@, strings_view(games@)),
    {
        let ghost m = self@;
        let ghost gv = strings_view(games@);
        let name = chars_of(playlist);
        let k = self.position(&name);
        proof {
            lemma_set_membership_wf(m, playlist@, gv, k as int);
        }
        if self.is_named(k, &name) {
            self.playlists[k].game_names = games;
            assert(self@ =~= m.update(k as int, (playlist@, gv)));
        } else {
            self.playlists.insert(k, Playlist { name: playlist.to_owned(), game_names: games });
            assert(self@ =~= m.insert(k as int, (playlist@, gv)));
        }
    }

    /// Removes game `game` from playlist `playlist`, if there is such a playlist.
    pub fn remove_game(&mut self, playlist: &str, game: &str)
        requires
            old(self).wf(),
        ensures
            final(self).wf(),
            final(self)@ == remove_membership(old(self)@, playlist@, game@),
    {
        let ghost m = self@;
        let name = chars_of(playlist);
        let k = self.position(&name);
        proof {
            lemma_lower_bound_unique(playlist_names(m), playlist@, k as int);
        }
        if self.is_named(k, &name) {
            let mut games = Vec::new();
            std::mem::swap(&mut games, &mut self.playlists[k].game_names);
            assert(strings_view(games@) == m[k as int].1);
            remove_name(&mut games, game);
            proof {
                lemma_set_membership_wf(m, playlist@, strings_view(games@), k as int);
            }
            self.playlists[k].game_names = games;
            assert(self@ =~= m.update(k as int, (playlist@, sorted_remove(m[k as int].1, game@))));
        }
    }

    /// The games of playlist `playlist`, if there is one.
    pub fn games(&self, playlist: &str) -> (r: Option<Vec<String>>)
        requires
            self.wf(),
        ensures
            match games_of(self@, playlist@) {
                Some(g) => r matches Some(v) && strings_view(v@) == g,
                None => r is None,
            },
    {
        let name = chars_of(playlist);
        let k = self.position(&name);
        proof {
            lemma_lower_bound_unique(playlist_names(self@), playlist@, k as int);
        }
        if self.is_named(k, &name) {
            Some(copy_names(&self.playlists[k].game_names))
        } else {
            None
        }
    }

    /// The playlists, in order.
    pub fn playlists(&self) -> (r: Vec<Playlist>)
        ensures
            playlists_view(r@) == self@,
    {
        let mut out: Vec<Playlist> = Vec::new();
        let mut i: usize = 0;
        while i < self.playlists.len()
            invariant
                i <= self.playlists@.len(),
                playlists_view(out@) =~= self@.take(i as int),
            decreases self.playlists.len() - i,
        {
            let ghost before = playlists_view(out@);
            let p = Playlist {
                name: self.playlists[i].name.clone(),
                game_names: copy_names(&self.playlists[i].game_names),
            };
            out.push(p);
            assert(playlists_view(out@) =~= before.push(self@[i as int]));
            i += 1;
        }
        assert(self@.take(self@.len() as int) =~= self@);
        out
    }
}

/// A copy of a list of names.
pub fn copy_names(v: &Vec<String>) -> (r: Vec<String>)
    ensures
        strings_view(r@) == strings_view(v@),
{
    let mut out: Vec<String> = Vec::new();
    let mut i: usize = 0;
    while i < v.len()
        invariant
            i <= v@.len(),
            strings_view(out@) =~= strings_view(v@).take(i as int),
        decreases v.len() - i,
    {
        let ghost before = strings_view(out@);
        out.push(v[i].clone());
        assert(strings_view(out@) =~= before.push(v@[i as int]@));
        i += 1;
    }
    assert(strings_view(v@).take(v@.len() as int) =~= strings_view(v@));
    out
}

// ---------------------------------------------------------------------------
// Removing games everywhere
// ---------------------------------------------------------------------------

/// The playlists after removing the game `g` from each.
pub open spec fn remove_everywhere(m: Seq<(Seq<char>, Seq<Seq<char>>)>, g: Seq<char>) -> Seq<
    (Seq<char>, Seq<Seq<char>>),
> {
    Seq::new(m.len(), |i: int| (m[i].0, sorted_remove(m[i].1, g)))
}

/// Whether some playlist holds the game `g`.
pub open spec fn in_some_playlist(m: Seq<(Seq<char>, Seq<Seq<char>>)>, g: Seq<char>) -> bool {
    exists|i: int| 0 <= i < m.len() && #[trigger] m[i].1.contains(g)
}

/// The playlists after removing each of the games `names` from each.
pub open spec fn remove_all_everywhere(
    m: Seq<(Seq<char>, Seq<Seq<char>>)>,
    names: Seq<Seq<char>>,
) -> Seq<(Seq<char>, Seq<Seq<char>>)> {
    Seq::new(m.len(), |i: int| (m[i].0, m[i].1.filter(|y: Seq<char>| !names.contains(y))))
}

/// Whether some playlist holds one of the games `names`.
pub open spec fn any_in_some_playlist(
    m: Seq<(Seq<char>, Seq<Seq<char>>)>,
    names: Seq<Seq<char>>,
) -> bool {
    exists|i: int, j: int|
        0 <= i < m.len() && 0 <= j < m[i].1.len() && names.contains(#[trigger] m[i].1[j])
}

impl Memberships {
    /// Removes the game `game` from every playlist; says whether any playlist held it.
    pub fn remove_game_everywhere(&mut self, game: &str) -> (changed: bool)
        requires
            old(self).wf(),
        ensures
            final(self).wf(),
            final(self)@ == remove_everywhere(old(self)@, game@),
            changed == in_some_playlist(old(self)@, game@),
    {
        let ghost m = self@;
        let mut changed = false;
        let mut i: usize = 0;
        while i < self.playlists.len()
            invariant
                i <= self.playlists@.len(),
                m.len() == self.playlists@.len(),
                memberships_wf(m),
                forall|k: int| 0 <= k < i ==> #[trigger] self@[k] == (m[k].0, sorted_remove(m[k].1, game@)),
                forall|k: int| i <= k < m.len() ==> #[trigger] self@[k] == m[k],
                forall|k: int| 0 <= k < i ==> sorted_names(#[trigger] self@[k].1),
                changed == exists|k: int| 0 <= k < i && #[trigger] m[k].1.contains(game@),
            decreases self.playlists.len() - i,
        {
            assert(self@[i as int] == m[i as int]);
            let ghost before = self.playlists@;
            let mut games = Vec::new();
            std::mem::swap(&mut games, &mut self.playlists[i].game_names);
            assert(strings_view(games@) == m[i as int].1);
            let removed = remove_name(&mut games, game);
            self.playlists[i].game_names = games;
            proof {
                assert forall|k: int| 0 <= k < m.len() && k != i implies #[trigger] self@[k] == playlists_view(before)[k] by {
                    assert(self.playlists@[k] == before[k]);
                }
            }
            if removed {
                changed = true;
            }
            i += 1;
        }
        assert(self@ =~= remove_everywhere(m, game@));
        proof {
            assert forall|a: int, b: int| 0 <= a < b < playlist_names(self@).len() implies seq_less(
                #[trigger] playlist_names(self@)[a],
                #[trigger] playlist_names(self@)[b],
            ) by {
                assert(playlist_names(self@)[a] == playlist_names(m)[a]);
                assert(playlist_names(self@)[b] == playlist_names(m)[b]);
            }
        }
        changed
    }

    /// Removes each of the games `names` from every playlist; says whether any playlist
    /// held one of them.
    pub fn remove_games_everywhere(&mut self, names: &[String]) -> (changed: bool)
        requires
            old(self).wf(),
        ensures
            final(self).wf(),
            final(self)@ == remove_all_everywhere(old(self)@, strings_view(names@)),
            changed == any_in_some_playlist(old(self)@, strings_view(names@)),
    {
        let ghost m = self@;
        let ghost nv = strings_view(names@);
        let ghost pred = |y: Seq<char>| !nv.contains(y);
        let mut changed = false;
        let mut i: usize = 0;
        while i < self.playlists.len()
            invariant
                i <= self.playlists@.len(),
                m.len() == self.playlists@.len(),
                memberships_wf(m),
                nv == strings_view(names@),
                pred == (|y: Seq<char>| !nv.contains(y)),
                forall|k: int| 0 <= k < i ==> #[trigger] self@[k] == (m[k].0, m[k].1.filter(pred)),
                forall|k: int| i <= k < m.len() ==> #[trigger] self@[k] == m[k],
                forall|k: int| 0 <= k < i ==> sorted_names(#[trigger] self@[k].1),
                changed == exists|k: int, j: int|
                    0 <= k < i && 0 <= j < m[k].1.len() && nv.contains(#[trigger] m[k].1[j]),
            decreases self.playlists.len() - i,
        {
            assert(self@[i as int] == m[i as int]);
            let ghost before = self.playlists@;
            let ghost old_games = m[i as int].1;
            proof {
                lemma_filter_sorted(old_games, pred);
            }
            let mut kept: Vec<String> = Vec::new();
            let mut any = false;
            let mut j: usize = 0;
            while j < self.playlists[i].game_names.len()
                invariant
                    j <= old_games.len(),
                    i < self.playlists@.len(),
                    strings_view(self.playlists@[i as int].game_names@) == old_games,
                    nv == strings_view(names@),
                    pred == (|y: Seq<char>| !nv.contains(y)),
                    strings_view(kept@) == old_games.take(j as int).filter(pred),
                    any == exists|q: int| 0 <= q < j && nv.contains(#[trigger] old_games[q]),
                decreases old_games.len() - j,
            {
                let ghost t = old_games.take(j + 1);
                assert(t.drop_last() =~= old_games.take(j as int));
                let name = self.playlists[i].game_names[j].as_str();
                assert(t.last() == name@);
                proof {
                    reveal(Seq::filter);
                }
                let ghost kb = strings_view(kept@);
                let listed = crate::types::strings_contain(names, name);
                assert(listed == nv.contains(name@)) by {
                    if listed {
                        let q = choose|q: int| 0 <= q < nv.len() && #[trigger] nv[q] == name@;
                        assert(nv.contains(name@));
                    }
                    if nv.contains(name@) {
                        let q = choose|q: int| 0 <= q < nv.len() && nv[q] == name@;
                        assert(crate::types::names_contain(nv, name@));
                    }
                }
                if listed {
                    any = true;
                } else {
                    kept.push(name.to_owned());
                    assert(strings_view(kept@) =~= kb.push(name@));
                }
                j += 1;
            }
            assert(old_games.take(old_games.len() as int) =~= old_games);
            self.playlists[i].game_names = kept;
            proof {
                assert forall|k: int| 0 <= k < m.len() && k != i implies #[trigger] self@[k] == playlists_view(before)[k] by {
                    assert(self.playlists@[k] == before[k]);
                }
                if any {
                    let q = choose|q: int| 0 <= q < old_games.len() && nv.contains(#[trigger] old_games[q]);
                    assert(nv.contains(m[i as int].1[q]));
                }
                if !any {
                    assert forall|q: int| 0 <= q < m[i as int].1.len() implies !nv.contains(
                        #[trigger] m[i as int].1[q],
                    ) by {
                        assert(m[i as int].1[q] == old_games[q]);
                    }
                }
            }
            if any {
                changed = true;
            }
            i += 1;
        }
        assert(self@ =~= remove_all_everywhere(m, nv));
        proof {
            assert forall|a: int, b: int| 0 <= a < b < playlist_names(self@).len() implies seq_less(
                #[trigger] playlist_names(self@)[a],
                #[trigger] playlist_names(self@)[b],
            ) by {
                assert(playlist_names(self@)[a] == playlist_names(m)[a]);
                assert(playlist_names(self@)[b] == playlist_names(m)[b]);
            }
        }
        changed
    }
}

// ---------------------------------------------------------------------------
// The playlists file
// ---------------------------------------------------------------------------

/// The playlist and game that one line of the playlists file names, if any: the line is
/// trimmed, blank lines and `#` comments are skipped, and the rest must hold a tab
/// with a non-blank playlist name before it and a non-blank game name after it.
pub open spec fn parse_playlist_line(line: Seq<char>) -> Option<(Seq<char>, Seq<char>)> {
    let t = trim_seq(line);
    if t.len() == 0 || t[0] == '#' || index_of_char(t, '\t') is None {
        None
    } else {
        let p = trim_seq(before_char(t, '\t'));
        let g = trim_seq(after_char(t, '\t'));
        if p.len() == 0 || g.len() == 0 {
            None
        } else {
            Some((p, g))
        }
    }
}

/// The playlists that a sequence of lines names.
pub open spec fn parse_playlist_lines(lines: Seq<Seq<char>>) -> Seq<(Seq<char>, Seq<Seq<char>>)>
    decreases lines.len(),
{
    if lines.len() == 0 {
        Seq::empty()
    } else {
        let m = parse_playlist_lines(lines.drop_last());
        match parse_playlist_line(lines.last()) {
            Some(pg) => add_membership(m, pg.0, pg.1),
            None => m,
        }
    }
}

/// The playlists that the contents of a playlists file name.
pub open spec fn parse_playlists(contents: Seq<char>) -> Seq<(Seq<char>, Seq<Seq<char>>)> {
    parse_playlist_lines(lines_seq(contents))
}

/// The lines `p<TAB>g` for each game `g` of `games`, in order.
pub open spec fn playlist_lines(p: Seq<char>, games: Seq<Seq<char>>) -> Seq<char>
    decreases games.len(),
{
    if games.len() == 0 {
        Seq::empty()
    } else {
        playlist_lines(p, games.drop_last()) + p + seq!['\t'] + games.last() + seq!['\n']
    }
}

/// The contents of a playlists file holding `m`: one line per game of each playlist.
pub open spec fn serialize_playlists(m: Seq<(Seq<char>, Seq<Seq<char>>)>) -> Seq<char>
    decreases m.len(),
{
    if m.len() == 0 {
        Seq::empty()
    } else {
        serialize_playlists(m.drop_last()) + playlist_lines(m.last().0, m.last().1)
    }
}

/// The playlist and game named by one line, if any.
fn parse_playlist_line_chars(line: &Vec<char>) -> (r: Option<(String, String)>)
    ensures
        match r {
            Some(pg) => parse_playlist_line(line@) == Some((pg.0@, pg.1@)),
            None => parse_playlist_line(line@) is None,
        },
{
    let t = trim_chars(line);
    if t.len() == 0 || t[0] == '#' {
        return None;
    }
    if crate::text::find_char(&t, '\t').is_none() {
        return None;
    }
    let (before, after) = split_once_char(&t, '\t');
    let p = trim_chars(&before);
    let g = trim_chars(&after);
    if p.len() == 0 || g.len() == 0 {
        return None;
    }
    Some((string_of(&p), string_of(&g)))
}

impl Memberships {
    /// The playlists named by the contents of a playlists file.
    pub fn parse(contents: &str) -> (r: Memberships)
        ensures
            r.wf(),
            r@ == parse_playlists(contents@),
    {
        let lines = lines_of_str(contents);
        let ghost lv = vecs_view(lines@);
        let mut m = Memberships::new();
        let mut i: usize = 0;
        while i < lines.len()
            invariant
                i <= lines@.len(),
                lv == vecs_view(lines@),
                m.wf(),
                m@ == parse_playlist_lines(lv.take(i as int)),
            decreases lines.len() - i,
        {
            assert(lv.take(i + 1).drop_last() =~= lv.take(i as int));
            assert(lv.take(i + 1).last() == lines@[i as int]@);
            match parse_playlist_line_chars(&lines[i]) {
                Some(pg) => {
                    m.add_game(pg.0.as_str(), pg.1.as_str());
                },
                None => {},
            }
            i += 1;
        }
        assert(lv.take(lines@.len() as int) =~= lv);
        m
    }

    /// The contents of a playlists file holding these playlists.
    pub fn serialize(&self) -> (r: String)
        ensures
            r@ == serialize_playlists(self@),
    {
        let mut out: Vec<char> = Vec::new();
        let mut i: usize = 0;
        while i < self.playlists.len()
            invariant
                i <= self.playlists@.len(),
                out@ == serialize_playlists(self@.take(i as int)),
            decreases self.playlists.len() - i,
        {
            let p = &self.playlists[i];
            let ghost games = strings_view(p.game_names@);
            let ghost start = out@;
            let mut j: usize = 0;
            while j < p.game_names.len()
                invariant
                    j <= p.game_names@.len(),
                    games == strings_view(p.game_names@),
                    out@ == start + playlist_lines(p.name@, games.take(j as int)),
                decreases p.game_names.len() - j,
            {
                assert(games.take(j + 1).drop_last() =~= games.take(j as int));
                append_str(&mut out, p.name.as_str());
                out.push('\t');
                append_str(&mut out, p.game_names[j].as_str());
                out.push('\n');
                assert(out@ =~= start + playlist_lines(p.name@, games.take(j + 1)));
                j += 1;
            }
            assert(games.take(p.game_names@.len() as int) =~= games);
            assert(self@.take(i + 1).drop_last() =~= self@.take(i as int));
            assert(self@.take(i + 1).last() == (p.name@, games));
            i += 1;
        }
        assert(self@.take(self@.len() as int) =~= self@);
        string_of(&out)
    }
}

// ---------------------------------------------------------------------------
// Playlist requests
// ---------------------------------------------------------------------------

/// The first position, at or after `k`, of a playlist whose name equals `name` up to
/// ASCII case.
pub open spec fn case_insensitive_index_from(names: Seq<Seq<char>>, name: Seq<char>, k: int) -> Option<
    int,
>
    decreases names.len() - k,
{
    if k < 0 || k >= names.len() {
        None
    } else if eq_ignore_ascii_case_seq(names[k], name) {
        Some(k)
    } else {
        case_insensitive_index_from(names, name, k + 1)
    }
}

/// What the playlist name `name` stands for: one of the built-in playlists when it
/// names one up to ASCII case, else the first existing playlist whose name it equals up
/// to ASCII case, after trimming; else the message that there is no such playlist.
pub open spec fn resolve_playlist_spec(name: Seq<char>, m: Seq<(Seq<char>, Seq<Seq<char>>)>) -> Result<
    Seq<char>,
    Seq<char>,
> {
    let t = trim_seq(name);
    if eq_ignore_ascii_case_seq(t, FAVORITES_PLAYLIST_NAME@) {
        Ok(FAVORITES_PLAYLIST_NAME@)
    } else if eq_ignore_ascii_case_seq(t, STEAM_PLAYLIST_NAME@) {
        Ok(STEAM_PLAYLIST_NAME@)
    } else if eq_ignore_ascii_case_seq(t, EMULATION_PLAYLIST_NAME@) {
        Ok(EMULATION_PLAYLIST_NAME@)
    } else {
        match case_insensitive_index_from(playlist_names(m), t, 0) {
            Some(k) => Ok(m[k].0),
            None => Err("Playlist '"@ + t + "' does not exist"@),
        }
    }
}

/// The name of the playlist that `playlist_name` stands for.
pub fn resolve_playlist_name(playlist_name: &str, memberships: &Memberships) -> (r: Result<
    String,
    CoreError,
>)
    ensures
        match resolve_playlist_spec(playlist_name@, memberships@) {
            Ok(n) => r matches Ok(s) && s@ == n,
            Err(msg) => r matches Err(e) && e@ == msg,
        },
{
    let raw = chars_of(playlist_name);
    let t = trim_chars(&raw);
    if chars_eq_ignore_ascii_case(&t, &chars_of(FAVORITES_PLAYLIST_NAME)) {
        return Ok(FAVORITES_PLAYLIST_NAME.to_owned());
    }
    if chars_eq_ignore_ascii_case(&t, &chars_of(STEAM_PLAYLIST_NAME)) {
        return Ok(STEAM_PLAYLIST_NAME.to_owned());
    }
    if chars_eq_ignore_ascii_case(&t, &chars_of(EMULATION_PLAYLIST_NAME)) {
        return Ok(EMULATION_PLAYLIST_NAME.to_owned());
    }
    let ghost names = playlist_names(memberships@);
    let mut i: usize = 0;
    while i < memberships.playlists.len()
        invariant
            i <= memberships.playlists@.len(),
            names == playlist_names(memberships@),
            names.len() == memberships.playlists@.len(),
            t@ == trim_seq(playlist_name@),
            !eq_ignore_ascii_case_seq(t@, FAVORITES_PLAYLIST_NAME@),
            !eq_ignore_ascii_case_seq(t@, STEAM_PLAYLIST_NAME@),
            !eq_ignore_ascii_case_seq(t@, EMULATION_PLAYLIST_NAME@),
            case_insensitive_index_from(names, t@, 0) == case_insensitive_index_from(names, t@, i as int),
        decreases memberships.playlists.len() - i,
    {
        assert(names[i as int] == memberships.playlists@[i as int].name@);
        if chars_eq_ignore_ascii_case(&chars_of(memberships.playlists[i].name.as_str()), &t) {
            return Ok(memberships.playlists[i].name.clone());
        }
        i += 1;
    }
    let mut msg: Vec<char> = Vec::new();
    append_str(&mut msg, "Playlist '");
    let tail = string_of(&t);
    append_str(&mut msg, tail.as_str());
    append_str(&mut msg, "' does not exist");
    Err(CoreError::new(string_of(&msg)))
}

/// What is wrong with a request to change a playlist, if anything: a blank playlist
/// name, or a blank game name.
pub open spec fn playlist_request_problem(playlist_name: Seq<char>, game_name: Seq<char>) -> Option<
    Seq<char>,
> {
    if trim_seq(playlist_name).len() == 0 {
        Some("Playlist name cannot be empty"@)
    } else if trim_seq(game_name).len() == 0 {
        Some("Game name cannot be empty"@)
    } else {
        None
    }
}

/// Checks a request to change a playlist: both names must be non-blank.
pub fn check_playlist_request(playlist_name: &str, game_name: &str) -> (r: Result<(), CoreError>)
    ensures
        match playlist_request_problem(playlist_name@, game_name@) {
            Some(m) => r matches Err(e) && e@ == m,
            None => r is Ok,
        },
{
    if trim_chars(&chars_of(playlist_name)).len() == 0 {
        return Err(CoreError::new("Playlist name cannot be empty".to_owned()));
    }
    if trim_chars(&chars_of(game_name)).len() == 0 {
        return Err(CoreError::new("Game name cannot be empty".to_owned()));
    }
    Ok(())
}

/// Adds the game `game_name` (trimmed) to the playlist that `playlist_name` stands for.
pub fn add_game_to_playlist(playlist_name: &str, game_name: &str, memberships: &mut Memberships) -> (r:
    Result<(), CoreError>)
    requires
        old(memberships).wf(),
    ensures
        final(memberships).wf(),
        match playlist_request_problem(playlist_name@, game_name@) {
            Some(m) => r matches Err(e) && e@ == m && final(memberships)@ == old(memberships)@,
            None => match resolve_playlist_spec(playlist_name@, old(memberships)@) {
                Err(m) => r matches Err(e) && e@ == m && final(memberships)@ == old(memberships)@,
                Ok(p) => r is Ok && final(memberships)@ == add_membership(
                    old(memberships)@,
                    p,
                    trim_seq(game_name@),
                ),
            },
        },
{
    check_playlist_request(playlist_name, game_name)?;
    let name = resolve_playlist_name(playlist_name, memberships)?;
    let game = crate::text::trim_str(game_name);
    memberships.add_game(name.as_str(), game.as_str());
    Ok(())
}

/// Removes the game `game_name` (trimmed) from the playlist that `playlist_name` stands
/// for.
pub fn remove_game_from_playlist(
    playlist_name: &str,
    game_name: &str,
    memberships: &mut Memberships,
) -> (r: Result<(), CoreError>)
    requires
        old(memberships).wf(),
    ensures
        final(memberships).wf(),
        match playlist_request_problem(playlist_name@, game_name@) {
            Some(m) => r matches Err(e) && e@ == m && final(memberships)@ == old(memberships)@,
            None => match resolve_playlist_spec(playlist_name@, old(memberships)@) {
                Err(m) => r matches Err(e) && e@ == m && final(memberships)@ == old(memberships)@,
                Ok(p) => r is Ok && final(memberships)@ == remove_membership(
                    old(memberships)@,
                    p,
                    trim_seq(game_name@),
                ),
            },
        },
{
    check_playlist_request(playlist_name, game_name)?;
    let name = resolve_playlist_name(playlist_name, memberships)?;
    let game = crate::text::trim_str(game_name);
    memberships.remove_game(name.as_str(), game.as_str());
    Ok(())
}

/// Removes the game `game_name` from every playlist (nothing for an empty name); says
/// whether a playlist changed.
pub fn remove_game_from_all_playlists(game_name: &str, memberships: &mut Memberships) -> (changed: bool)
    requires
        old(memberships).wf(),
    ensures
        final(memberships).wf(),
        game_name@.len() == 0 ==> !changed && final(memberships)@ == old(memberships)@,
        game_name@.len() > 0 ==> final(memberships)@ == remove_everywhere(old(memberships)@, game_name@)
            && changed == in_some_playlist(old(memberships)@, game_name@),
{
    if chars_of(game_name).len() == 0 {
        return false;
    }
    memberships.remove_game_everywhere(game_name)
}

/// Removes the games `game_names` from every playlist; says whether a playlist changed.
pub fn remove_games_from_all_playlists(game_names: &[String], memberships: &mut Memberships) -> (changed:
    bool)
    requires
        old(memberships).wf(),
    ensures
        final(memberships).wf(),
        final(memberships)@ == remove_all_everywhere(old(memberships)@, strings_view(game_names@)),
        changed == any_in_some_playlist(old(memberships)@, strings_view(game_names@)),
{
    memberships.remove_games_everywhere(game_names)
}

// ---------------------------------------------------------------------------
// Automatic playlists and listing
// ---------------------------------------------------------------------------

/// The names of the games of `entries` launched by `kind`, in ascending order.
pub open spec fn kind_games(entries: Seq<GameEntryView>, kind: RunnerKind) -> Seq<Seq<char>>
    decreases entries.len(),
{
    if entries.len() == 0 {
        Seq::empty()
    } else {
        let prev = kind_games(entries.drop_last(), kind);
        if entries.last().runner_kind == kind {
            sorted_insert(prev, entries.last().name)
        } else {
            prev
        }
    }
}

/// Whether playlist `p` would change if its games became `games` (both in ascending
/// order, so that equal sets of games are equal sequences).
pub open spec fn playlist_differs(
    m: Seq<(Seq<char>, Seq<Seq<char>>)>,
    p: Seq<char>,
    games: Seq<Seq<char>>,
) -> bool {
    match games_of(m, p) {
        Some(g) => g != games,
        None => games.len() > 0,
    }
}

/// The names of the games of `entries` launched by `kind`, in ascending order.
fn games_of_kind(entries: &[GameEntry], kind: RunnerKind) -> (r: Vec<String>)
    ensures
        strings_view(r@) == kind_games(entries_view(entries@), kind),
        sorted_names(strings_view(r@)),
{
    let ghost ev = entries_view(entries@);
    let mut out: Vec<String> = Vec::new();
    let mut i: usize = 0;
    while i < entries.len()
        invariant
            i <= entries@.len(),
            ev == entries_view(entries@),
            strings_view(out@) == kind_games(ev.take(i as int), kind),
            sorted_names(strings_view(out@)),
        decreases entries.len() - i,
    {
        assert(ev.take(i + 1).drop_last() =~= ev.take(i as int));
        assert(ev.take(i + 1).last() == entries@[i as int]@);
        if entries[i].runner_kind == kind {
            insert_name(&mut out, entries[i].name.as_str());
        }
        i += 1;
    }
    assert(ev.take(entries@.len() as int) =~= ev);
    out
}

/// Whether the playlist `name` would change if its games became `games`.
fn differs(memberships: &Memberships, name: &str, games: &Vec<String>) -> (r: bool)
    requires
        memberships.wf(),
    ensures
        r == playlist_differs(memberships@, name@, strings_view(games@)),
{
    match memberships.games(name) {
        Some(existing) => {
            if existing.len() != games.len() {
                assert(strings_view(existing@).len() != strings_view(games@).len());
                return true;
            }
            let mut i: usize = 0;
            while i < games.len()
                invariant
                    i <= games@.len(),
                    existing@.len() == games@.len(),
                    games_of(memberships@, name@) == Some(strings_view(existing@)),
                    forall|j: int| 0 <= j < i ==> strings_view(existing@)[j] == strings_view(games@)[j],
                decreases games.len() - i,
            {
                if !chars_eq(&chars_of(existing[i].as_str()), &chars_of(games[i].as_str())) {
                    assert(strings_view(existing@)[i as int] != strings_view(games@)[i as int]);
                    return true;
                }
                i += 1;
            }
            assert(strings_view(existing@) =~= strings_view(games@));
            false
        },
        None => games.len() > 0,
    }
}

/// Makes the Steam playlist hold exactly the Steam games of `entries`, and the
/// Emulation playlist exactly the emulated games; says whether either changed.
pub fn sync_automatic_playlists(memberships: &mut Memberships, entries: &[GameEntry]) -> (changed: bool)
    requires
        old(memberships).wf(),
    ensures
        final(memberships).wf(),
        final(memberships)@ == set_membership(
            set_membership(
                old(memberships)@,
                STEAM_PLAYLIST_NAME@,
                kind_games(entries_view(entries@), RunnerKind::Steam),
            ),
            EMULATION_PLAYLIST_NAME@,
            kind_games(entries_view(entries@), RunnerKind::Emulator),
        ),
        changed == (playlist_differs(
            old(memberships)@,
            STEAM_PLAYLIST_NAME@,
            kind_games(entries_view(entries@), RunnerKind::Steam),
        ) || playlist_differs(
            old(memberships)@,
            EMULATION_PLAYLIST_NAME@,
            kind_games(entries_view(entries@), RunnerKind::Emulator),
        )),
{
    let steam = games_of_kind(entries, RunnerKind::Steam);
    let emulation = games_of_kind(entries, RunnerKind::Emulator);
    let steam_changed = differs(memberships, STEAM_PLAYLIST_NAME, &steam);
    let emulation_changed = differs(memberships, EMULATION_PLAYLIST_NAME, &emulation);
    memberships.set_games(STEAM_PLAYLIST_NAME, steam);
    memberships.set_games(EMULATION_PLAYLIST_NAME, emulation);
    steam_changed || emulation_changed
}

/// The games of playlist `p`, or none when there is no such playlist.
pub open spec fn games_or_empty(m: Seq<(Seq<char>, Seq<Seq<char>>)>, p: Seq<char>) -> Seq<Seq<char>> {
    match games_of(m, p) {
        Some(g) => g,
        None => Seq::empty(),
    }
}

/// Whether a playlist is one of the three built-in ones.
pub open spec fn is_builtin_playlist(p: Seq<char>) -> bool {
    p == FAVORITES_PLAYLIST_NAME@ || p == STEAM_PLAYLIST_NAME@ || p == EMULATION_PLAYLIST_NAME@
}

/// The playlists as listed: Favorites, Steam and Emulation first (empty when missing),
/// then the others in ascending order of name.
pub open spec fn list_playlists_spec(m: Seq<(Seq<char>, Seq<Seq<char>>)>) -> Seq<
    (Seq<char>, Seq<Seq<char>>),
> {
    seq![
        (FAVORITES_PLAYLIST_NAME@, games_or_empty(m, FAVORITES_PLAYLIST_NAME@)),
        (STEAM_PLAYLIST_NAME@, games_or_empty(m, STEAM_PLAYLIST_NAME@)),
        (EMULATION_PLAYLIST_NAME@, games_or_empty(m, EMULATION_PLAYLIST_NAME@)),
    ] + m.filter(|e: (Seq<char>, Seq<Seq<char>>)| !is_builtin_playlist(e.0))
}

/// A built-in playlist with its games, or with none when it is missing.
fn builtin_playlist(memberships: &Memberships, name: &str) -> (r: Playlist)
    requires
        memberships.wf(),
    ensures
        r.name@ == name@,
        strings_view(r.game_names@) == games_or_empty(memberships@, name@),
{
    let games = match memberships.games(name) {
        Some(g) => g,
        None => {
            let e: Vec<String> = Vec::new();
            assert(strings_view(e@) =~= Seq::<Seq<char>>::empty());
            e
        },
    };
    Playlist { name: name.to_owned(), game_names: games }
}

/// The playlists as listed: Favorites, Steam and Emulation first, then the others in
/// ascending order of name.
pub fn list_playlists(memberships: &Memberships) -> (r: Vec<Playlist>)
    requires
        memberships.wf(),
    ensures
        playlists_view(r@) == list_playlists_spec(memberships@),
{
    let mut out: Vec<Playlist> = Vec::new();
    out.push(builtin_playlist(memberships, FAVORITES_PLAYLIST_NAME));
    out.push(builtin_playlist(memberships, STEAM_PLAYLIST_NAME));
    out.push(builtin_playlist(memberships, EMULATION_PLAYLIST_NAME));
    let ghost head = playlists_view(out@);
    let all = memberships.playlists();
    let ghost m = memberships@;
    let ghost pred = |e: (Seq<char>, Seq<Seq<char>>)| !is_builtin_playlist(e.0);
    let fav = chars_of(FAVORITES_PLAYLIST_NAME);
    let steam = chars_of(STEAM_PLAYLIST_NAME);
    let emulation = chars_of(EMULATION_PLAYLIST_NAME);
    let mut i: usize = 0;
    while i < all.len()
        invariant
            i <= all@.len(),
            playlists_view(all@) == m,
            pred == (|e: (Seq<char>, Seq<Seq<char>>)| !is_builtin_playlist(e.0)),
            fav@ == FAVORITES_PLAYLIST_NAME@,
            steam@ == STEAM_PLAYLIST_NAME@,
            emulation@ == EMULATION_PLAYLIST_NAME@,
            playlists_view(out@) == head + m.take(i as int).filter(pred),
        decreases all.len() - i,
    {
        assert(m.take(i + 1).drop_last() =~= m.take(i as int));
        assert(m.take(i + 1).last() == m[i as int]);
        proof {
            reveal(Seq::filter);
        }
        let ghost before = playlists_view(out@);
        let name = chars_of(all[i].name.as_str());
        if !(chars_eq(&name, &fav) || chars_eq(&name, &steam) || chars_eq(&name, &emulation)) {
            let p = Playlist {
                name: all[i].name.clone(),
                game_names: copy_names(&all[i].game_names),
            };
            out.push(p);
            assert(playlists_view(out@) =~= before.push(m[i as int]));
        }
        i += 1;
    }
    assert(m.take(all@.len() as int) =~= m);
    assert(playlists_view(out@) =~= list_playlists_spec(m));
    out
}

// ---------------------------------------------------------------------------
// Laws
// ---------------------------------------------------------------------------

/// Every name has a place in a sequence: after the elements less than it.
pub proof fn lemma_lower_bound_exists(s: Seq<Seq<char>>, x: Seq<char>) -> (k: int)
    ensures
        is_lower_bound(s, x, k),
    decreases s.len(),
{
    if s.len() == 0 {
        0
    } else if !seq_less(s[0], x) {
        0
    } else {
        let k = lemma_lower_bound_exists(s.drop_first(), x);
        assert forall|j: int| 0 <= j < k + 1 implies seq_less(#[trigger] s[j], x) by {
            if j > 0 {
                assert(s[j] == s.drop_first()[j - 1]);
            }
        }
        if k + 1 < s.len() {
            assert(s[k + 1] == s.drop_first()[k]);
        }
        k + 1
    }
}

/// In a sequence in ascending order, the place of an element is where it stands.
pub proof fn lemma_lower_bound_of_present(s: Seq<Seq<char>>, x: Seq<char>, k: int)
    requires
        sorted_names(s),
        0 <= k < s.len(),
        s[k] == x,
    ensures
        lower_bound(s, x) == k,
{
    lemma_seq_less_irreflexive(x);
    assert forall|j: int| 0 <= j < k implies seq_less(#[trigger] s[j], x) by {
        assert(seq_less(s[j], s[k]));
    }
    lemma_lower_bound_unique(s, x, k);
}

/// In playlists that are in order, the games of a playlist are those it holds.
pub proof fn lemma_games_of_present(m: Seq<(Seq<char>, Seq<Seq<char>>)>, k: int)
    requires
        memberships_wf(m),
        0 <= k < m.len(),
    ensures
        games_of(m, m[k].0) == Some(m[k].1),
{
    let names = playlist_names(m);
    assert(names[k] == m[k].0);
    lemma_lower_bound_of_present(names, m[k].0, k);
}

/// After the games of a playlist are replaced, the playlist holds exactly those games.
pub proof fn lemma_set_then_games(
    m: Seq<(Seq<char>, Seq<Seq<char>>)>,
    p: Seq<char>,
    games: Seq<Seq<char>>,
)
    requires
        memberships_wf(m),
        sorted_names(games),
    ensures
        memberships_wf(set_membership(m, p, games)),
        games_of(set_membership(m, p, games), p) == Some(games),
{
    let k = lemma_lower_bound_exists(playlist_names(m), p);
    lemma_set_membership_wf(m, p, games, k);
    let r = set_membership(m, p, games);
    assert(r[k].0 == p);
    lemma_games_of_present(r, k);
}

/// A game added to a playlist is among the playlist's games afterwards.
pub proof fn lemma_add_then_holds(m: Seq<(Seq<char>, Seq<Seq<char>>)>, p: Seq<char>, g: Seq<char>)
    requires
        memberships_wf(m),
    ensures
        memberships_wf(add_membership(m, p, g)),
        games_of(add_membership(m, p, g), p) matches Some(games) && games.contains(g),
{
    let names = playlist_names(m);
    let k = lemma_lower_bound_exists(names, p);
    lemma_lower_bound_unique(names, p, k);
    let r = add_membership(m, p, g);
    if k < m.len() && m[k].0 == p {
        let gk = lemma_lower_bound_exists(m[k].1, g);
        lemma_sorted_insert(m[k].1, g, gk);
        lemma_set_membership_wf(m, p, sorted_insert(m[k].1, g), k);
        assert(r == set_membership(m, p, sorted_insert(m[k].1, g)));
        assert(sorted_insert(m[k].1, g).to_set().contains(g));
    } else {
        assert(sorted_names(seq![g]));
        lemma_set_membership_wf(m, p, seq![g], k);
        assert(r == set_membership(m, p, seq![g]));
        assert(seq![g][0] == g);
    }
    assert(r[k].0 == p);
    lemma_games_of_present(r, k);
}

/// After a game is removed from every playlist, no playlist holds it.
pub proof fn lemma_removed_everywhere(m: Seq<(Seq<char>, Seq<Seq<char>>)>, g: Seq<char>)
    requires
        memberships_wf(m),
    ensures
        !in_some_playlist(remove_everywhere(m, g), g),
{
    let r = remove_everywhere(m, g);
    assert forall|i: int| 0 <= i < r.len() implies !(#[trigger] r[i].1.contains(g)) by {
        lemma_filter_sorted(m[i].1, |y: Seq<char>| y != g);
    }
}

/// The names of the games of a kind are in ascending order.
pub proof fn lemma_kind_games_sorted(entries: Seq<GameEntryView>, kind: RunnerKind)
    ensures
        sorted_names(kind_games(entries, kind)),
    decreases entries.len(),
{
    if entries.len() > 0 {
        lemma_kind_games_sorted(entries.drop_last(), kind);
        if entries.last().runner_kind == kind {
            let prev = kind_games(entries.drop_last(), kind);
            let k = lemma_lower_bound_exists(prev, entries.last().name);
            lemma_sorted_insert(prev, entries.last().name, k);
        }
    }
}

/// Syncing the automatic playlists a second time changes nothing: after a sync, the
/// Steam and Emulation playlists hold exactly the Steam and emulated games.
pub proof fn lemma_sync_automatic_settles(
    m: Seq<(Seq<char>, Seq<Seq<char>>)>,
    entries: Seq<GameEntryView>,
)
    requires
        memberships_wf(m),
    ensures
        ({
            let sg = kind_games(entries, RunnerKind::Steam);
            let eg = kind_games(entries, RunnerKind::Emulator);
            let after = set_membership(
                set_membership(m, STEAM_PLAYLIST_NAME@, sg),
                EMULATION_PLAYLIST_NAME@,
                eg,
            );
            &&& memberships_wf(after)
            &&& !playlist_differs(after, STEAM_PLAYLIST_NAME@, sg)
            &&& !playlist_differs(after, EMULATION_PLAYLIST_NAME@, eg)
        }),
{
    let sg = kind_games(entries, RunnerKind::Steam);
    let eg = kind_games(entries, RunnerKind::Emulator);
    lemma_kind_games_sorted(entries, RunnerKind::Steam);
    lemma_kind_games_sorted(entries, RunnerKind::Emulator);
    let m1 = set_membership(m, STEAM_PLAYLIST_NAME@, sg);
    lemma_set_then_games(m, STEAM_PLAYLIST_NAME@, sg);
    lemma_set_then_games(m1, EMULATION_PLAYLIST_NAME@, eg);
    let after = set_membership(m1, EMULATION_PLAYLIST_NAME@, eg);
    // the Steam playlist is still where it was, with its games
    let names1 = playlist_names(m1);
    let k1 = lower_bound(names1, STEAM_PLAYLIST_NAME@);
    let k1w = lemma_lower_bound_exists(names1, STEAM_PLAYLIST_NAME@);
    lemma_lower_bound_unique(names1, STEAM_PLAYLIST_NAME@, k1w);
    assert(k1 < m1.len() && m1[k1].0 == STEAM_PLAYLIST_NAME@ && m1[k1].1 == sg);
    reveal_strlit("Steam");
    reveal_strlit("Emulation");
    assert(STEAM_PLAYLIST_NAME@ != EMULATION_PLAYLIST_NAME@) by {
        assert(STEAM_PLAYLIST_NAME@[0] != EMULATION_PLAYLIST_NAME@[0]);
    }
    let names = playlist_names(m1);
    let ke = lemma_lower_bound_exists(names, EMULATION_PLAYLIST_NAME@);
    lemma_lower_bound_unique(names, EMULATION_PLAYLIST_NAME@, ke);
    assert(lower_bound(names, EMULATION_PLAYLIST_NAME@) == ke);
    if ke < m1.len() && m1[ke].0 == EMULATION_PLAYLIST_NAME@ {
        assert(after == m1.update(ke, (EMULATION_PLAYLIST_NAME@, eg)));
        assert(k1 != ke);
        assert(after[k1] == m1[k1]);
        lemma_games_of_present(after, k1);
    } else {
        assert(after == m1.insert(ke, (EMULATION_PLAYLIST_NAME@, eg)));
        if k1 < ke {
            assert(after[k1] == m1[k1]);
            lemma_games_of_present(after, k1);
        } else {
            assert(after[k1 + 1] == m1[k1]);
            lemma_games_of_present(after, k1 + 1);
        }
    }
}

// ---------------------------------------------------------------------------
// The round trip of the playlists file
// ---------------------------------------------------------------------------

/// A playlist name that the playlists file can hold and give back: not empty, trimmed,
/// without tab or line break, and not beginning with `#`.
pub open spec fn storable_playlist_name(p: Seq<char>) -> bool {
    &&& p.len() > 0
    &&& trim_seq(p) == p
    &&& lacks_char(p, '\t')
    &&& lacks_char(p, '\n')
    &&& p[0] != '#'
}

/// A game name that the playlists file can hold and give back: not empty, trimmed, and
/// without line break.
pub open spec fn storable_game_name(g: Seq<char>) -> bool {
    &&& g.len() > 0
    &&& trim_seq(g) == g
    &&& lacks_char(g, '\n')
}

/// Playlists that the playlists file can hold and give back: in order, each with a
/// storable name and at least one game, every game with a storable name.
pub open spec fn storable_memberships(m: Seq<(Seq<char>, Seq<Seq<char>>)>) -> bool {
    &&& memberships_wf(m)
    &&& forall|i: int| 0 <= i < m.len() ==> storable_playlist_name(#[trigger] m[i].0)
    &&& forall|i: int| 0 <= i < m.len() ==> (#[trigger] m[i].1).len() > 0
    &&& forall|i: int, j: int|
        0 <= i < m.len() && 0 <= j < m[i].1.len() ==> storable_game_name(#[trigger] m[i].1[j])
}

/// The line `p<TAB>g` of a playlist and game.
pub open spec fn membership_line(pg: (Seq<char>, Seq<char>)) -> Seq<char> {
    pg.0 + seq!['\t'] + pg.1
}

/// Each game of a playlist paired with the playlist.
pub open spec fn pairs_of_playlist(p: Seq<char>, games: Seq<Seq<char>>) -> Seq<(Seq<char>, Seq<char>)> {
    Seq::new(games.len(), |j: int| (p, games[j]))
}

/// Each game of each playlist paired with its playlist, in order.
pub open spec fn pairs_of(m: Seq<(Seq<char>, Seq<Seq<char>>)>) -> Seq<(Seq<char>, Seq<char>)>
    decreases m.len(),
{
    if m.len() == 0 {
        Seq::empty()
    } else {
        pairs_of(m.drop_last()) + pairs_of_playlist(m.last().0, m.last().1)
    }
}

/// The lines of pairs, each ending with a line break.
pub open spec fn serialize_pairs(ps: Seq<(Seq<char>, Seq<char>)>) -> Seq<char>
    decreases ps.len(),
{
    if ps.len() == 0 {
        Seq::empty()
    } else {
        serialize_pairs(ps.drop_last()) + membership_line(ps.last()) + seq!['\n']
    }
}

/// Adding the pairs, in order, to the playlists `m`.
pub open spec fn fold_add_from(
    m: Seq<(Seq<char>, Seq<Seq<char>>)>,
    ps: Seq<(Seq<char>, Seq<char>)>,
) -> Seq<(Seq<char>, Seq<Seq<char>>)>
    decreases ps.len(),
{
    if ps.len() == 0 {
        m
    } else {
        add_membership(fold_add_from(m, ps.drop_last()), ps.last().0, ps.last().1)
    }
}

proof fn lemma_serialize_pairs_append(a: Seq<(Seq<char>, Seq<char>)>, b: Seq<(Seq<char>, Seq<char>)>)
    ensures
        serialize_pairs(a + b) == serialize_pairs(a) + serialize_pairs(b),
    decreases b.len(),
{
    if b.len() == 0 {
        assert(a + b =~= a);
    } else {
        lemma_serialize_pairs_append(a, b.drop_last());
        assert((a + b).drop_last() =~= a + b.drop_last());
        assert((a + b).last() == b.last());
    }
}

proof fn lemma_playlist_lines_pairs(p: Seq<char>, games: Seq<Seq<char>>)
    ensures
        playlist_lines(p, games) == serialize_pairs(pairs_of_playlist(p, games)),
    decreases games.len(),
{
    if games.len() > 0 {
        lemma_playlist_lines_pairs(p, games.drop_last());
        assert(pairs_of_playlist(p, games).drop_last() =~= pairs_of_playlist(p, games.drop_last()));
    }
}

proof fn lemma_serialize_playlists_pairs(m: Seq<(Seq<char>, Seq<Seq<char>>)>)
    ensures
        serialize_playlists(m) == serialize_pairs(pairs_of(m)),
    decreases m.len(),
{
    if m.len() > 0 {
        lemma_serialize_playlists_pairs(m.drop_last());
        lemma_playlist_lines_pairs(m.last().0, m.last().1);
        lemma_serialize_pairs_append(
            pairs_of(m.drop_last()),
            pairs_of_playlist(m.last().0, m.last().1),
        );
    }
}

/// Whether every pair's playlist and game are storable.
pub open spec fn storable_pairs(ps: Seq<(Seq<char>, Seq<char>)>) -> bool {
    forall|i: int|
        0 <= i < ps.len() ==> storable_playlist_name((#[trigger] ps[i]).0) && storable_game_name(
            ps[i].1,
        )
}

/// The line of a storable pair holds no line break.
proof fn lemma_membership_line_lacks_newline(pg: (Seq<char>, Seq<char>))
    requires
        storable_playlist_name(pg.0),
        storable_game_name(pg.1),
    ensures
        lacks_char(membership_line(pg), '\n'),
{
    let line = membership_line(pg);
    assert forall|i: int| 0 <= i < line.len() implies #[trigger] line[i] != '\n' by {
        let a = pg.0.len() as int;
        if i < a {
            assert(line[i] == pg.0[i]);
        } else if i > a {
            assert(line[i] == pg.1[i - a - 1]);
        }
    }
}

proof fn lemma_split_serialized_pairs(ps: Seq<(Seq<char>, Seq<char>)>)
    requires
        storable_pairs(ps),
    ensures
        crate::text::split_on(serialize_pairs(ps), '\n') == Seq::new(
            ps.len(),
            |i: int| membership_line(ps[i]),
        ).push(Seq::<char>::empty()),
    decreases ps.len(),
{
    if ps.len() == 0 {
        assert(crate::text::split_on(serialize_pairs(ps), '\n') =~= seq![Seq::<char>::empty()]);
        assert(Seq::new(ps.len(), |i: int| membership_line(ps[i])).push(Seq::<char>::empty())
            =~= seq![Seq::<char>::empty()]);
    } else {
        let prev = ps.drop_last();
        assert(storable_pairs(prev)) by {
            assert forall|i: int| 0 <= i < prev.len() implies storable_playlist_name(
                (#[trigger] prev[i]).0,
            ) && storable_game_name(prev[i].1) by {
                assert(prev[i] == ps[i]);
            }
        }
        lemma_split_serialized_pairs(prev);
        let s0 = serialize_pairs(prev);
        let line = membership_line(ps.last());
        assert(storable_playlist_name(ps[ps.len() - 1].0) && storable_game_name(ps[ps.len() - 1].1));
        lemma_membership_line_lacks_newline(ps.last());
        crate::text::lemma_split_on_append_plain(s0, line, '\n');
        crate::text::lemma_split_on_push_sep(s0 + line, '\n');
        assert(serialize_pairs(ps) == (s0 + line).push('\n')) by {
            assert(s0 + line + seq!['\n'] =~= (s0 + line).push('\n'));
        }
        let p0 = crate::text::split_on(s0, '\n');
        assert(p0.last() + line =~= line);
        assert(crate::text::split_on(serialize_pairs(ps), '\n') =~= Seq::new(
            ps.len(),
            |i: int| membership_line(ps[i]),
        ).push(Seq::<char>::empty()));
    }
}

/// A trimmed, non-empty sequence begins and ends with a non-whitespace character.
proof fn lemma_trimmed_ends(s: Seq<char>)
    requires
        s.len() > 0,
        trim_seq(s) == s,
    ensures
        !crate::text::is_white_space(s[0]),
        !crate::text::is_white_space(s.last()),
{
    crate::text::lemma_trim_start_begins(s);
    crate::text::lemma_trim_end_prefix(crate::text::trim_start_seq(s));
    assert(s[0] == crate::text::trim_start_seq(s)[0]);
}

/// The line of a storable pair is read back as that pair.
proof fn lemma_parse_membership_line(pg: (Seq<char>, Seq<char>))
    requires
        storable_playlist_name(pg.0),
        storable_game_name(pg.1),
    ensures
        parse_playlist_line(membership_line(pg)) == Some(pg),
        crate::text::strip_cr(membership_line(pg)) == membership_line(pg),
{
    let (p, g) = pg;
    let line = membership_line(pg);
    lemma_trimmed_ends(p);
    lemma_trimmed_ends(g);
    assert(line[0] == p[0]);
    assert(line.last() == g.last());
    // the line is its own trim: it begins and ends with non-whitespace
    assert(crate::text::trim_start_seq(line) == line);
    assert(crate::text::trim_end_seq(line) == line);
    crate::text::lemma_index_of_char_concat(p, g, '\t');
    assert(line =~= p + seq!['\t'] + g);
}

proof fn lemma_parse_pair_lines(ps: Seq<(Seq<char>, Seq<char>)>)
    requires
        storable_pairs(ps),
    ensures
        parse_playlist_lines(Seq::new(ps.len(), |i: int| membership_line(ps[i]))) == fold_add_from(
            Seq::empty(),
            ps,
        ),
    decreases ps.len(),
{
    let lines = Seq::new(ps.len(), |i: int| membership_line(ps[i]));
    if ps.len() > 0 {
        let prev = ps.drop_last();
        assert(storable_pairs(prev)) by {
            assert forall|i: int| 0 <= i < prev.len() implies storable_playlist_name(
                (#[trigger] prev[i]).0,
            ) && storable_game_name(prev[i].1) by {
                assert(prev[i] == ps[i]);
            }
        }
        lemma_parse_pair_lines(prev);
        assert(lines.drop_last() =~= Seq::new(prev.len(), |i: int| membership_line(prev[i])));
        assert(storable_playlist_name(ps[ps.len() - 1].0) && storable_game_name(ps[ps.len() - 1].1));
        lemma_parse_membership_line(ps.last());
    }
}

proof fn lemma_fold_add_append(
    m: Seq<(Seq<char>, Seq<Seq<char>>)>,
    a: Seq<(Seq<char>, Seq<char>)>,
    b: Seq<(Seq<char>, Seq<char>)>,
)
    ensures
        fold_add_from(m, a + b) == fold_add_from(fold_add_from(m, a), b),
    decreases b.len(),
{
    if b.len() == 0 {
        assert(a + b =~= a);
    } else {
        lemma_fold_add_append(m, a, b.drop_last());
        assert((a + b).drop_last() =~= a + b.drop_last());
        assert((a + b).last() == b.last());
    }
}

/// Adding the games of one last playlist, in order, after playlists whose names all
/// precede its name, builds that playlist.
proof fn lemma_fold_last_playlist(
    m: Seq<(Seq<char>, Seq<Seq<char>>)>,
    p: Seq<char>,
    games: Seq<Seq<char>>,
    j: int,
)
    requires
        1 <= j <= games.len(),
        sorted_names(games),
        forall|i: int| 0 <= i < m.len() ==> seq_less(#[trigger] m[i].0, p),
    ensures
        fold_add_from(m, pairs_of_playlist(p, games.take(j))) == m.push((p, games.take(j))),
    decreases j,
{
    let names = playlist_names(m);
    let n = m.len() as int;
    if j == 1 {
        let ps = pairs_of_playlist(p, games.take(1));
        assert(ps.drop_last() =~= Seq::<(Seq<char>, Seq<char>)>::empty());
        assert(ps.last() == (p, games[0]));
        assert(is_lower_bound(names, p, n)) by {
            assert forall|k: int| 0 <= k < n implies seq_less(#[trigger] names[k], p) by {
                assert(names[k] == m[k].0);
            }
        }
        lemma_lower_bound_unique(names, p, n);
        assert(games.take(1) =~= seq![games[0]]);
        assert(fold_add_from(m, ps.drop_last()) == m);
        assert(fold_add_from(m, ps) == add_membership(m, p, games[0]));
        assert(add_membership(m, p, games[0]) == m.insert(n, (p, seq![games[0]])));
        assert(m.insert(n, (p, seq![games[0]])) =~= m.push((p, games.take(1))));
    } else {
        lemma_fold_last_playlist(m, p, games, j - 1);
        let ps = pairs_of_playlist(p, games.take(j));
        assert(ps.drop_last() =~= pairs_of_playlist(p, games.take(j - 1)));
        assert(ps.last() == (p, games[j - 1]));
        let m1 = m.push((p, games.take(j - 1)));
        let names1 = playlist_names(m1);
        lemma_seq_less_irreflexive(p);
        assert(is_lower_bound(names1, p, n)) by {
            assert forall|k: int| 0 <= k < n implies seq_less(#[trigger] names1[k], p) by {
                assert(names1[k] == m[k].0);
            }
            assert(names1[n] == p);
        }
        lemma_lower_bound_unique(names1, p, n);
        let old_games = games.take(j - 1);
        let g = games[j - 1];
        lemma_seq_less_irreflexive(g);
        assert(is_lower_bound(old_games, g, j - 1)) by {
            assert forall|k: int| 0 <= k < j - 1 implies seq_less(#[trigger] old_games[k], g) by {
                assert(old_games[k] == games[k]);
            }
        }
        lemma_lower_bound_unique(old_games, g, j - 1);
        assert(sorted_insert(old_games, g) =~= games.take(j));
        assert(fold_add_from(m, ps.drop_last()) == m1);
        assert(fold_add_from(m, ps) == add_membership(m1, p, g));
        assert(m1[n].0 == p && m1[n].1 == old_games);
        assert(add_membership(m1, p, g) == m1.update(n, (p, sorted_insert(old_games, g))));
        assert(m1.update(n, (p, games.take(j))) =~= m.push((p, games.take(j))));
    }
}

proof fn lemma_fold_pairs_of(m: Seq<(Seq<char>, Seq<Seq<char>>)>)
    requires
        storable_memberships(m),
    ensures
        fold_add_from(Seq::empty(), pairs_of(m)) == m,
    decreases m.len(),
{
    if m.len() > 0 {
        let prev = m.drop_last();
        let n = prev.len() as int;
        assert(storable_memberships(prev)) by {
            assert forall|a: int, b: int| 0 <= a < b < playlist_names(prev).len() implies seq_less(
                #[trigger] playlist_names(prev)[a],
                #[trigger] playlist_names(prev)[b],
            ) by {
                assert(playlist_names(prev)[a] == playlist_names(m)[a]);
                assert(playlist_names(prev)[b] == playlist_names(m)[b]);
            }
            assert forall|i: int| 0 <= i < prev.len() implies sorted_names(#[trigger] prev[i].1) by {
                assert(prev[i] == m[i]);
            }
            assert forall|i: int| 0 <= i < prev.len() implies storable_playlist_name(
                #[trigger] prev[i].0,
            ) by {
                assert(prev[i] == m[i]);
            }
            assert forall|i: int| 0 <= i < prev.len() implies (#[trigger] prev[i].1).len() > 0 by {
                assert(prev[i] == m[i]);
            }
            assert forall|i: int, j: int|
                0 <= i < prev.len() && 0 <= j < prev[i].1.len() implies storable_game_name(
                #[trigger] prev[i].1[j],
            ) by {
                assert(prev[i] == m[i]);
            }
        }
        lemma_fold_pairs_of(prev);
        let (p, games) = m.last();
        lemma_fold_add_append(Seq::empty(), pairs_of(prev), pairs_of_playlist(p, games));
        assert(games.len() > 0) by {
            assert(m[n].1.len() > 0);
        }
        assert(sorted_names(games)) by {
            assert(sorted_names(m[n].1));
        }
        assert forall|i: int| 0 <= i < prev.len() implies seq_less(#[trigger] prev[i].0, p) by {
            assert(playlist_names(m)[i] == prev[i].0);
            assert(playlist_names(m)[n] == p);
        }
        lemma_fold_last_playlist(prev, p, games, games.len() as int);
        assert(games.take(games.len() as int) =~= games);
        assert(prev.push((p, games)) =~= m);
    }
}

/// Every pair of storable playlists is storable.
proof fn lemma_pairs_of_storable(m: Seq<(Seq<char>, Seq<Seq<char>>)>)
    requires
        storable_memberships(m),
    ensures
        storable_pairs(pairs_of(m)),
    decreases m.len(),
{
    if m.len() > 0 {
        let prev = m.drop_last();
        assert(storable_memberships(prev)) by {
            assert forall|a: int, b: int| 0 <= a < b < playlist_names(prev).len() implies seq_less(
                #[trigger] playlist_names(prev)[a],
                #[trigger] playlist_names(prev)[b],
            ) by {
                assert(playlist_names(prev)[a] == playlist_names(m)[a]);
                assert(playlist_names(prev)[b] == playlist_names(m)[b]);
            }
            assert forall|i: int| 0 <= i < prev.len() implies sorted_names(#[trigger] prev[i].1) by {
                assert(prev[i] == m[i]);
            }
            assert forall|i: int| 0 <= i < prev.len() implies storable_playlist_name(
                #[trigger] prev[i].0,
            ) by {
                assert(prev[i] == m[i]);
            }
            assert forall|i: int| 0 <= i < prev.len() implies (#[trigger] prev[i].1).len() > 0 by {
                assert(prev[i] == m[i]);
            }
            assert forall|i: int, j: int|
                0 <= i < prev.len() && 0 <= j < prev[i].1.len() implies storable_game_name(
                #[trigger] prev[i].1[j],
            ) by {
                assert(prev[i] == m[i]);
            }
        }
        lemma_pairs_of_storable(prev);
        let a = pairs_of(prev);
        let b = pairs_of_playlist(m.last().0, m.last().1);
        let n = prev.len() as int;
        assert forall|i: int| 0 <= i < (a + b).len() implies storable_playlist_name(
            (#[trigger] (a + b)[i]).0,
        ) && storable_game_name((a + b)[i].1) by {
            if i < a.len() {
                assert((a + b)[i] == a[i]);
            } else {
                assert((a + b)[i] == b[i - a.len()]);
                assert(m[n].1[i - a.len()] == b[i - a.len()].1);
            }
        }
    }
}

/// Writing storable playlists to the playlists file and reading the file gives back the
/// same playlists.
pub proof fn lemma_playlists_round_trip(m: Seq<(Seq<char>, Seq<Seq<char>>)>)
    requires
        storable_memberships(m),
    ensures
        parse_playlists(serialize_playlists(m)) == m,
{
    lemma_serialize_playlists_pairs(m);
    lemma_pairs_of_storable(m);
    let ps = pairs_of(m);
    lemma_split_serialized_pairs(ps);
    let lines = Seq::new(ps.len(), |i: int| membership_line(ps[i]));
    assert forall|i: int| 0 <= i < ps.len() implies crate::text::strip_cr(#[trigger] lines[i])
        == lines[i] by {
        lemma_parse_membership_line(ps[i]);
    }
    assert(crate::text::lines_seq(serialize_pairs(ps)) =~= lines);
    lemma_parse_pair_lines(ps);
    lemma_fold_pairs_of(m);
}

} // verus!
