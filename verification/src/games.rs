//! The rules of the game list: adding, listing, finding and removing games, over the
//! entries that the registry holds.
use vstd::prelude::*;

use crate::error::CoreError;
use crate::runners::{detect_appid_seq, resolve_add_target, RunnerKind};
use crate::text::{
    append_str, chars_ends_with, chars_eq, chars_of, chars_starts_with, ends_with_seq, find_char,
    index_of_char, lacks_char, starts_with_seq, string_of,
    unicode_lowercase,
};
use crate::types::{entries_view, names_contain, strings_view, GameEntry, GameEntryView};

verus! {

broadcast use vstd::string::group_string_axioms;

/// Whether one of `entries` has the name `name`.
pub open spec fn has_name(entries: Seq<GameEntryView>, name: Seq<char>) -> bool {
    exists|i: int| 0 <= i < entries.len() && #[trigger] entries[i].name == name
}

/// Whether one of `entries` is launched by `kind` with `target`.
pub open spec fn has_target(entries: Seq<GameEntryView>, kind: RunnerKind, target: Seq<char>) -> bool {
    exists|i: int|
        0 <= i < entries.len() && #[trigger] entries[i].runner_kind == kind
            && entries[i].launch_target == target
}

/// Whether no two of `entries` share a name.
pub open spec fn names_unique(entries: Seq<GameEntryView>) -> bool {
    forall|i: int, j: int|
        0 <= i < entries.len() && 0 <= j < entries.len() && i != j ==> #[trigger] entries[i].name
            != #[trigger] entries[j].name
}

/// What is wrong with a game name, if anything: it is empty, or holds a tab or a
/// newline (either would break the registry's line format).
pub open spec fn game_name_problem(name: Seq<char>) -> Option<Seq<char>> {
    if name.len() == 0 {
        Some("Game name cannot be empty"@)
    } else if !lacks_char(name, '\t') || !lacks_char(name, '\n') {
        Some("Game name cannot contain tabs or newlines"@)
    } else {
        None
    }
}

/// The contents of the outcome of resolving a bash script.
pub open spec fn script_view(r: Result<String, String>) -> Result<Seq<char>, Seq<char>> {
    match r {
        Ok(p) => Ok(p@),
        Err(e) => Err(e@),
    }
}

/// What preparing a new game gives: the entry to add, or the message of why the game
/// is refused. The name is checked, then the blacklist (by lowercased name), then the
/// target: a Steam appid, else the bash script `bash`.
pub open spec fn prepare_game_spec(
    name: Seq<char>,
    raw_input: Seq<char>,
    bash: Result<Seq<char>, Seq<char>>,
    blacklisted: Seq<Seq<char>>,
) -> Result<GameEntryView, Seq<char>> {
    match game_name_problem(name) {
        Some(m) => Err(m),
        None => if names_contain(blacklisted, unicode_lowercase(name)) {
            Err("Game name '"@ + name + "' is blacklisted"@)
        } else {
            match detect_appid_seq(raw_input) {
                Some(appid) => Ok(
                    GameEntryView { name, runner_kind: RunnerKind::Steam, launch_target: appid },
                ),
                None => match bash {
                    Ok(path) => Ok(
                        GameEntryView { name, runner_kind: RunnerKind::Bash, launch_target: path },
                    ),
                    Err(e) => Err(e),
                },
            }
        },
    }
}

/// What adding `entry` to `entries` gives: the entries with it at the end, or the
/// message of why it is refused (its name, or its runner and target, are taken).
pub open spec fn insert_game_spec(entries: Seq<GameEntryView>, entry: GameEntryView) -> Result<
    Seq<GameEntryView>,
    Seq<char>,
> {
    if has_name(entries, entry.name) {
        Err("A game with name '"@ + entry.name + "' already exists"@)
    } else if has_target(entries, entry.runner_kind, entry.launch_target) {
        Err("A game with target '"@ + entry.launch_target + "' already exists"@)
    } else {
        Ok(entries.push(entry))
    }
}

/// What adding a game gives: the new entries, or the message of why it is refused.
pub open spec fn add_game_spec(
    name: Seq<char>,
    raw_input: Seq<char>,
    bash: Result<Seq<char>, Seq<char>>,
    blacklisted: Seq<Seq<char>>,
    entries: Seq<GameEntryView>,
) -> Result<Seq<GameEntryView>, Seq<char>> {
    match prepare_game_spec(name, raw_input, bash, blacklisted) {
        Err(m) => Err(m),
        Ok(entry) => insert_game_spec(entries, entry),
    }
}

/// `"{a}{name}{b}"` as a core error.
fn message_error(a: &str, name: &str, b: &str) -> (r: CoreError)
    ensures
        r@ == a@ + name@ + b@,
{
    let mut v: Vec<char> = Vec::new();
    append_str(&mut v, a);
    append_str(&mut v, name);
    append_str(&mut v, b);
    CoreError::new(string_of(&v))
}

/// Checks a game name: refused when empty or holding a tab or a newline.
pub fn check_game_name(name: &str) -> (r: Result<(), CoreError>)
    ensures
        match game_name_problem(name@) {
            Some(m) => r matches Err(e) && e@ == m,
            None => r is Ok,
        },
{
    let v = chars_of(name);
    if v.len() == 0 {
        return Err(CoreError::new("Game name cannot be empty".to_owned()));
    }
    let tab = find_char(&v, '\t');
    let newline = find_char(&v, '\n');
    proof {
        if tab is None {
            assert forall|i: int| 0 <= i < v@.len() implies #[trigger] v@[i] != '\t' by {
                lemma_no_index_means_lacks(v@, '\t', i);
            }
        }
        if newline is None {
            assert forall|i: int| 0 <= i < v@.len() implies #[trigger] v@[i] != '\n' by {
                lemma_no_index_means_lacks(v@, '\n', i);
            }
        }
    }
    if tab.is_some() || newline.is_some() {
        proof {
            if let Some(i) = tab {
                lemma_index_means_found(v@, '\t');
            }
            if let Some(i) = newline {
                lemma_index_means_found(v@, '\n');
            }
        }
        return Err(CoreError::new("Game name cannot contain tabs or newlines".to_owned()));
    }
    Ok(())
}

/// A sequence with no first occurrence of `c` has no `c` at `i`.
proof fn lemma_no_index_means_lacks(s: Seq<char>, c: char, i: int)
    requires
        index_of_char(s, c) is None,
        0 <= i < s.len(),
    ensures
        s[i] != c,
    decreases s.len(),
{
    if s[0] != c && i > 0 {
        assert(s.drop_first()[i - 1] == s[i]);
        lemma_no_index_means_lacks(s.drop_first(), c, i - 1);
    }
}

/// A sequence with a first occurrence of `c` holds `c`.
proof fn lemma_index_means_found(s: Seq<char>, c: char)
    requires
        index_of_char(s, c) is Some,
    ensures
        !lacks_char(s, c),
    decreases s.len(),
{
    if s[0] != c {
        lemma_index_means_found(s.drop_first(), c);
        let k = choose|k: int| 0 <= k < s.drop_first().len() && #[trigger] s.drop_first()[k] == c;
        assert(s[k + 1] == c);
    }
}

/// The entry for a new game, after checking its name against the rules and the
/// blacklist and resolving its target; `bash_script` is the outcome of resolving the
/// input as a bash script, used only when it names no Steam appid.
pub fn prepare_game(
    name: &str,
    raw_input: &str,
    bash_script: Result<String, String>,
    blacklisted: &[String],
) -> (r: Result<GameEntry, CoreError>)
    ensures
        match prepare_game_spec(name@, raw_input@, script_view(bash_script), strings_view(blacklisted@)) {
            Ok(e) => r matches Ok(g) && g@ == e,
            Err(m) => r matches Err(e) && e@ == m,
        },
{
    check_game_name(name)?;
    if crate::registry::is_name_blacklisted(name, blacklisted) {
        return Err(message_error("Game name '", name, "' is blacklisted"));
    }
    let target = match resolve_add_target(raw_input, bash_script) {
        Ok(t) => t,
        Err(e) => {
            return Err(CoreError::new(e));
        },
    };
    Ok(GameEntry { name: name.to_owned(), runner_kind: target.runner_kind, launch_target: target.launch_target })
}

/// Whether one of `entries` has the name `name`.
pub fn entries_have_name(entries: &[GameEntry], name: &str) -> (r: bool)
    ensures
        r == has_name(entries_view(entries@), name@),
{
    let ghost ev = entries_view(entries@);
    let target = chars_of(name);
    let mut i: usize = 0;
    while i < entries.len()
        invariant
            i <= entries@.len(),
            ev == entries_view(entries@),
            target@ == name@,
            forall|j: int| 0 <= j < i ==> #[trigger] ev[j].name != name@,
        decreases entries.len() - i,
    {
        assert(ev[i as int] == entries@[i as int]@);
        if chars_eq(&chars_of(entries[i].name.as_str()), &target) {
            assert(ev[i as int].name == name@);
            return true;
        }
        i += 1;
    }
    false
}

/// Whether one of `entries` is launched by `kind` with `target`.
pub fn entries_have_target(entries: &[GameEntry], kind: RunnerKind, target: &str) -> (r: bool)
    ensures
        r == has_target(entries_view(entries@), kind, target@),
{
    let ghost ev = entries_view(entries@);
    let t = chars_of(target);
    let mut i: usize = 0;
    while i < entries.len()
        invariant
            i <= entries@.len(),
            ev == entries_view(entries@),
            t@ == target@,
            forall|j: int|
                0 <= j < i ==> !(#[trigger] ev[j].runner_kind == kind && ev[j].launch_target
                    == target@),
        decreases entries.len() - i,
    {
        assert(ev[i as int] == entries@[i as int]@);
        if entries[i].runner_kind == kind && chars_eq(
            &chars_of(entries[i].launch_target.as_str()),
            &t,
        ) {
            assert(ev[i as int].runner_kind == kind && ev[i as int].launch_target == target@);
            return true;
        }
        i += 1;
    }
    false
}

/// `entries` with `entry` added at the end; refused when its name, or its runner and
/// target, are taken.
pub fn insert_game(entries: &[GameEntry], entry: GameEntry) -> (r: Result<Vec<GameEntry>, CoreError>)
    ensures
        match insert_game_spec(entries_view(entries@), entry@) {
            Ok(s) => r matches Ok(v) && entries_view(v@) == s,
            Err(m) => r matches Err(e) && e@ == m,
        },
{
    if entries_have_name(entries, entry.name.as_str()) {
        return Err(message_error("A game with name '", entry.name.as_str(), "' already exists"));
    }
    if entries_have_target(entries, entry.runner_kind, entry.launch_target.as_str()) {
        return Err(
            message_error("A game with target '", entry.launch_target.as_str(), "' already exists"),
        );
    }
    let mut out = crate::types::copy_entries(entries);
    let ghost before = entries_view(out@);
    let ghost e = entry@;
    out.push(entry);
    assert(entries_view(out@) =~= before.push(e));
    Ok(out)
}

/// The entries after adding a game: `name` with the target that `raw_input` names (a
/// Steam appid, else the bash script `bash_script`), unless a rule refuses it.
pub fn add_game(
    name: &str,
    raw_input: &str,
    bash_script: Result<String, String>,
    blacklisted: &[String],
    entries: &[GameEntry],
) -> (r: Result<Vec<GameEntry>, CoreError>)
    ensures
        match add_game_spec(
            name@,
            raw_input@,
            script_view(bash_script),
            strings_view(blacklisted@),
            entries_view(entries@),
        ) {
            Ok(s) => r matches Ok(v) && entries_view(v@) == s,
            Err(m) => r matches Err(e) && e@ == m,
        },
{
    let entry = prepare_game(name, raw_input, bash_script, blacklisted)?;
    insert_game(entries, entry)
}

/// Whether an entry is listed: its lowercased name is not blacklisted.
pub open spec fn is_listed(e: GameEntryView, blacklisted: Seq<Seq<char>>) -> bool {
    !names_contain(blacklisted, unicode_lowercase(e.name))
}

/// The games that are listed, in registry order: those whose lowercased name is not
/// blacklisted.
pub fn list_games(entries: &[GameEntry], blacklisted: &[String]) -> (r: Vec<GameEntry>)
    ensures
        entries_view(r@) == entries_view(entries@).filter(
            |e: GameEntryView| is_listed(e, strings_view(blacklisted@)),
        ),
{
    let ghost ev = entries_view(entries@);
    let ghost b = strings_view(blacklisted@);
    let ghost pred = |e: GameEntryView| is_listed(e, b);
    let mut out: Vec<GameEntry> = Vec::new();
    let mut i: usize = 0;
    while i < entries.len()
        invariant
            i <= entries@.len(),
            ev == entries_view(entries@),
            b == strings_view(blacklisted@),
            pred == (|e: GameEntryView| is_listed(e, b)),
            entries_view(out@) == ev.take(i as int).filter(pred),
        decreases entries.len() - i,
    {
        let ghost t = ev.take(i + 1);
        assert(t.drop_last() =~= ev.take(i as int));
        assert(t.last() == entries@[i as int]@);
        proof {
            reveal(Seq::filter);
        }
        let ghost before = entries_view(out@);
        if !crate::registry::is_name_blacklisted(entries[i].name.as_str(), blacklisted) {
            out.push(entries[i].duplicate());
            assert(entries_view(out@) =~= before.push(entries@[i as int]@));
        }
        i += 1;
    }
    assert(ev.take(entries@.len() as int) =~= ev);
    out
}

/// What removing the game `name` gives: the entries without every entry of that name,
/// or the message of why nothing is removed.
pub open spec fn remove_game_spec(name: Seq<char>, entries: Seq<GameEntryView>) -> Result<
    Seq<GameEntryView>,
    Seq<char>,
> {
    if name.len() == 0 {
        Err("Game name cannot be empty"@)
    } else if !has_name(entries, name) {
        Err("No game found with name '"@ + name + "'"@)
    } else {
        Ok(entries.filter(|e: GameEntryView| e.name != name))
    }
}

/// The entries after removing the game `name`; refused when the name is empty or no
/// game has it.
pub fn remove_game(name: &str, entries: &[GameEntry]) -> (r: Result<Vec<GameEntry>, CoreError>)
    ensures
        match remove_game_spec(name@, entries_view(entries@)) {
            Ok(s) => r matches Ok(v) && entries_view(v@) == s,
            Err(m) => r matches Err(e) && e@ == m,
        },
{
    let target = chars_of(name);
    if target.len() == 0 {
        return Err(CoreError::new("Game name cannot be empty".to_owned()));
    }
    let ghost ev = entries_view(entries@);
    let ghost pred = |e: GameEntryView| e.name != name@;
    let mut out: Vec<GameEntry> = Vec::new();
    let mut found = false;
    let mut i: usize = 0;
    while i < entries.len()
        invariant
            i <= entries@.len(),
            ev == entries_view(entries@),
            target@ == name@,
            pred == (|e: GameEntryView| e.name != name@),
            entries_view(out@) == ev.take(i as int).filter(pred),
            found == has_name(ev.take(i as int), name@),
        decreases entries.len() - i,
    {
        let ghost t = ev.take(i + 1);
        assert(t.drop_last() =~= ev.take(i as int));
        assert(t.last() == entries@[i as int]@);
        proof {
            reveal(Seq::filter);
        }
        let ghost before = entries_view(out@);
        if chars_eq(&chars_of(entries[i].name.as_str()), &target) {
            found = true;
            assert(t[i as int].name == name@);
        } else {
            out.push(entries[i].duplicate());
            assert(entries_view(out@) =~= before.push(entries@[i as int]@));
            assert(has_name(t, name@) ==> has_name(ev.take(i as int), name@)) by {
                if has_name(t, name@) {
                    let k = choose|k: int| 0 <= k < t.len() && #[trigger] t[k].name == name@;
                    assert(k < i);
                    assert(ev.take(i as int)[k] == t[k]);
                }
            }
        }
        assert(has_name(ev.take(i as int), name@) ==> has_name(t, name@)) by {
            if has_name(ev.take(i as int), name@) {
                let k = choose|k: int|
                    0 <= k < ev.take(i as int).len() && #[trigger] ev.take(i as int)[k].name
                        == name@;
                assert(t[k] == ev.take(i as int)[k]);
            }
        }
        i += 1;
    }
    assert(ev.take(entries@.len() as int) =~= ev);
    if !found {
        return Err(message_error("No game found with name '", name, "'"));
    }
    Ok(out)
}

/// How many games there were and their names, for removing them all.
pub fn remove_all_games(entries: &[GameEntry]) -> (r: (usize, Vec<String>))
    ensures
        r.0 == entries@.len(),
        strings_view(r.1@) == Seq::new(entries@.len(), |i: int| entries@[i].name@),
{
    let mut names: Vec<String> = Vec::new();
    let mut i: usize = 0;
    while i < entries.len()
        invariant
            i <= entries@.len(),
            strings_view(names@) =~= Seq::new(i as nat, |k: int| entries@[k].name@),
        decreases entries.len() - i,
    {
        let ghost before = strings_view(names@);
        names.push(entries[i].name.clone());
        assert(strings_view(names@) =~= before.push(entries@[i as int].name@));
        i += 1;
    }
    (entries.len(), names)
}

/// What looking up the game `name` gives: the first entry with that name, or the
/// message of why there is none.
pub open spec fn find_game_spec(name: Seq<char>, entries: Seq<GameEntryView>) -> Result<
    GameEntryView,
    Seq<char>,
> {
    if name.len() == 0 {
        Err("Game name cannot be empty"@)
    } else if !has_name(entries, name) {
        Err("No game found with name '"@ + name + "'"@)
    } else {
        Ok(entries[choose|i: int| first_with_name(entries, name, i)])
    }
}

/// Whether `i` is the position of the first entry named `name`.
pub open spec fn first_with_name(entries: Seq<GameEntryView>, name: Seq<char>, i: int) -> bool {
    0 <= i < entries.len() && entries[i].name == name && forall|j: int|
        0 <= j < i ==> #[trigger] entries[j].name != name
}

/// The first game named `name`; refused when the name is empty or no game has it.
pub fn find_game(name: &str, entries: &[GameEntry]) -> (r: Result<GameEntry, CoreError>)
    ensures
        match find_game_spec(name@, entries_view(entries@)) {
            Ok(g) => r matches Ok(v) && v@ == g,
            Err(m) => r matches Err(e) && e@ == m,
        },
{
    let target = chars_of(name);
    if target.len() == 0 {
        return Err(CoreError::new("Game name cannot be empty".to_owned()));
    }
    let ghost ev = entries_view(entries@);
    let mut i: usize = 0;
    while i < entries.len()
        invariant
            i <= entries@.len(),
            ev == entries_view(entries@),
            target@ == name@,
            name@.len() > 0,
            forall|j: int| 0 <= j < i ==> #[trigger] ev[j].name != name@,
        decreases entries.len() - i,
    {
        assert(ev[i as int] == entries@[i as int]@);
        if chars_eq(&chars_of(entries[i].name.as_str()), &target) {
            assert(first_with_name(ev, name@, i as int));
            assert(has_name(ev, name@));
            proof {
                let k = choose|k: int| first_with_name(ev, name@, k);
                assert(k == i) by {
                    if k < i {
                        assert(ev[k].name != name@);
                    } else if k > i {
                        assert(ev[i as int].name != name@);
                    }
                }
                assert(find_game_spec(name@, ev) == Ok::<GameEntryView, Seq<char>>(ev[i as int]));
            }
            let found = entries[i].duplicate();
            assert(found@ == ev[i as int]);
            return Ok(found);
        }
        i += 1;
    }
    Err(message_error("No game found with name '", name, "'"))
}

/// Checks that a game named `game_name` exists; refused when the name is empty or no
/// game has it.
pub fn ensure_game_exists(game_name: &str, entries: &[GameEntry]) -> (r: Result<(), CoreError>)
    ensures
        match find_game_spec(game_name@, entries_view(entries@)) {
            Ok(_) => r is Ok,
            Err(m) => r matches Err(e) && e@ == m,
        },
{
    find_game(game_name, entries)?;
    Ok(())
}

/// Whether an error says that a game with that name, script or target already exists.
pub open spec fn is_already_exists_message(m: Seq<char>) -> bool {
    ends_with_seq(m, "' already exists"@) && (starts_with_seq(m, "A game with name '"@)
        || starts_with_seq(m, "A game with script '"@) || starts_with_seq(
        m,
        "A game with target '"@,
    ))
}

/// Whether `error` says that a game with that name, script or target already exists.
pub fn is_already_exists_error(error: &CoreError) -> (r: bool)
    ensures
        r == is_already_exists_message(error@),
{
    let m = chars_of(error.message());
    let ends = chars_ends_with(&m, &chars_of("' already exists"));
    let by_name = chars_starts_with(&m, &chars_of("A game with name '"));
    let by_script = chars_starts_with(&m, &chars_of("A game with script '"));
    let by_target = chars_starts_with(&m, &chars_of("A game with target '"));
    ends && (by_name || by_script || by_target)
}

/// Whether `error` says that the game name is blacklisted.
pub fn is_blacklisted_error(error: &CoreError) -> (r: bool)
    ensures
        r == (starts_with_seq(error@, "Game name '"@) && ends_with_seq(error@, "' is blacklisted"@)),
{
    let m = chars_of(error.message());
    chars_starts_with(&m, &chars_of("Game name '")) && chars_ends_with(&m, &chars_of("' is blacklisted"))
}

// ---------------------------------------------------------------------------
// Laws
// ---------------------------------------------------------------------------

/// Filtering by a predicate that every element meets keeps the sequence.
proof fn lemma_filter_all<A>(s: Seq<A>, pred: spec_fn(A) -> bool)
    requires
        forall|i: int| 0 <= i < s.len() ==> pred(#[trigger] s[i]),
    ensures
        s.filter(pred) == s,
    decreases s.len(),
{
    reveal(Seq::filter);
    if s.len() > 0 {
        assert forall|i: int| 0 <= i < s.drop_last().len() implies pred(#[trigger] s.drop_last()[i]) by {
            assert(s.drop_last()[i] == s[i]);
        }
        lemma_filter_all(s.drop_last(), pred);
        assert(s.drop_last().push(s.last()) =~= s);
    }
}

/// Adding a game and then removing it by name gives back the entries as they were.
pub proof fn lemma_add_then_remove(
    name: Seq<char>,
    raw_input: Seq<char>,
    bash: Result<Seq<char>, Seq<char>>,
    blacklisted: Seq<Seq<char>>,
    entries: Seq<GameEntryView>,
)
    requires
        add_game_spec(name, raw_input, bash, blacklisted, entries) is Ok,
    ensures
        remove_game_spec(name, add_game_spec(name, raw_input, bash, blacklisted, entries)->Ok_0)
            == Ok::<Seq<GameEntryView>, Seq<char>>(entries),
{
    let added = add_game_spec(name, raw_input, bash, blacklisted, entries)->Ok_0;
    let entry = prepare_game_spec(name, raw_input, bash, blacklisted)->Ok_0;
    assert(entry.name == name);
    assert(added == entries.push(entry));
    assert(has_name(added, name)) by {
        assert(added[entries.len() as int].name == name);
    }
    let pred = |e: GameEntryView| e.name != name;
    assert forall|i: int| 0 <= i < entries.len() implies pred(#[trigger] entries[i]) by {
        if entries[i].name == name {
            assert(has_name(entries, name));
        }
    }
    lemma_filter_all(entries, pred);
    reveal(Seq::filter);
    assert(added.drop_last() =~= entries);
}

/// Adding a game keeps the names of the entries unique.
pub proof fn lemma_add_keeps_names_unique(
    name: Seq<char>,
    raw_input: Seq<char>,
    bash: Result<Seq<char>, Seq<char>>,
    blacklisted: Seq<Seq<char>>,
    entries: Seq<GameEntryView>,
)
    requires
        names_unique(entries),
        add_game_spec(name, raw_input, bash, blacklisted, entries) is Ok,
    ensures
        names_unique(add_game_spec(name, raw_input, bash, blacklisted, entries)->Ok_0),
{
    let added = add_game_spec(name, raw_input, bash, blacklisted, entries)->Ok_0;
    let entry = prepare_game_spec(name, raw_input, bash, blacklisted)->Ok_0;
    assert(added == entries.push(entry));
    assert forall|i: int, j: int|
        0 <= i < added.len() && 0 <= j < added.len() && i != j implies #[trigger] added[i].name
        != #[trigger] added[j].name by {
        if i == entries.len() as int {
            assert(added[j] == entries[j]);
        } else if j == entries.len() as int {
            assert(added[i] == entries[i]);
        } else {
            assert(added[i] == entries[i]);
            assert(added[j] == entries[j]);
        }
    }
}

/// A game that is added is found afterwards by its name.
pub proof fn lemma_added_game_is_found(
    name: Seq<char>,
    raw_input: Seq<char>,
    bash: Result<Seq<char>, Seq<char>>,
    blacklisted: Seq<Seq<char>>,
    entries: Seq<GameEntryView>,
)
    requires
        add_game_spec(name, raw_input, bash, blacklisted, entries) is Ok,
    ensures
        find_game_spec(name, add_game_spec(name, raw_input, bash, blacklisted, entries)->Ok_0)
            == Ok::<GameEntryView, Seq<char>>(
            prepare_game_spec(name, raw_input, bash, blacklisted)->Ok_0,
        ),
{
    let added = add_game_spec(name, raw_input, bash, blacklisted, entries)->Ok_0;
    let entry = prepare_game_spec(name, raw_input, bash, blacklisted)->Ok_0;
    let n = entries.len() as int;
    assert(added == entries.push(entry));
    assert forall|j: int| 0 <= j < n implies #[trigger] added[j].name != name by {
        assert(added[j] == entries[j]);
        if entries[j].name == name {
            assert(has_name(entries, name));
        }
    }
    assert(first_with_name(added, name, n));
    assert(has_name(added, name));
    let k = choose|k: int| first_with_name(added, name, k);
    assert(k == n) by {
        if k < n {
            assert(added[k].name != name);
        }
    }
}

/// A refusal because a game's name or target is taken is one that
/// `is_already_exists_error` recognizes.
pub proof fn lemma_taken_is_already_exists(entries: Seq<GameEntryView>, entry: GameEntryView)
    requires
        insert_game_spec(entries, entry) is Err,
    ensures
        is_already_exists_message(insert_game_spec(entries, entry)->Err_0),
{
    let m = insert_game_spec(entries, entry)->Err_0;
    let suffix = "' already exists"@;
    let p = if has_name(entries, entry.name) {
        "A game with name '"@
    } else {
        "A game with target '"@
    };
    let mid = if has_name(entries, entry.name) {
        entry.name
    } else {
        entry.launch_target
    };
    assert(m == p + mid + suffix);
    assert(m.take(p.len() as int) =~= p);
    assert(m.skip(m.len() - suffix.len()) =~= suffix);
}

} // verus!
