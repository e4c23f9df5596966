//! The game registry file (`games.tsv`) and the blacklist file (`blacklist.txt`).
//!
//! A registry row is `name<TAB>runner<TAB>target`; legacy rows `name<TAB>script` are
//! bash games. A blacklist holds one game name per line, `#` starting a comment line.
use vstd::prelude::*;

use crate::runners::{lemma_runner_kind_name_round_trip, runner_kind_from_name, runner_kind_name, RunnerKind};
use crate::text::{
    after_char, append_str, before_char, is_blank_chars, is_white_space, lacks_char,
    lemma_index_of_char_concat, lemma_split_on_append_plain, lemma_split_on_push_sep,
    lemma_trim_empty_iff_blank, lines_of_str, lines_seq, split_on, split_once_char,
    str_eq, string_of, strip_cr, to_lowercase, trim_chars, trim_seq, trim_str,
    unicode_lowercase, vecs_view,
};
use crate::types::{entries_view, names_contain, strings_contain, strings_view, GameEntry, GameEntryView};

verus! {

broadcast use vstd::string::group_string_axioms;

/// The file name of the registry, inside the launcher's directory.
pub const REGISTRY_FILE_NAME: &'static str = "games.tsv";

/// The file name of the blacklist, inside the launcher's directory.
pub const BLACKLIST_FILE_NAME: &'static str = "blacklist.txt";

// ---------------------------------------------------------------------------
// Registry rows
// ---------------------------------------------------------------------------

/// The game that one registry line describes, if any.
pub open spec fn parse_registry_line(line: Seq<char>) -> Option<GameEntryView> {
    let name = before_char(line, '\t');
    let rest = after_char(line, '\t');
    let second = before_char(rest, '\t');
    let third = after_char(rest, '\t');
    if trim_seq(line).len() == 0 || name.len() == 0 {
        None
    } else if third.len() > 0 {
        match runner_kind_from_name(second) {
            Some(kind) => Some(GameEntryView { name, runner_kind: kind, launch_target: third }),
            None => None,
        }
    } else if second.len() > 0 {
        Some(GameEntryView { name, runner_kind: RunnerKind::Bash, launch_target: second })
    } else {
        None
    }
}

/// The games that a sequence of registry lines describes, in order.
pub open spec fn parse_registry_lines(lines: Seq<Seq<char>>) -> Seq<GameEntryView>
    decreases lines.len(),
{
    if lines.len() == 0 {
        Seq::empty()
    } else {
        let prev = parse_registry_lines(lines.drop_last());
        match parse_registry_line(lines.last()) {
            Some(e) => prev.push(e),
            None => prev,
        }
    }
}

/// The games that the contents of a registry file describe, in order.
pub open spec fn parse_registry(contents: Seq<char>) -> Seq<GameEntryView> {
    parse_registry_lines(lines_seq(contents))
}

/// The registry line of a game, without its line ending.
pub open spec fn registry_line(e: GameEntryView) -> Seq<char> {
    e.name + seq!['\t'] + runner_kind_name(e.runner_kind) + seq!['\t'] + e.launch_target
}

/// The contents of a registry file holding `entries`, one line each.
pub open spec fn serialize_registry(entries: Seq<GameEntryView>) -> Seq<char>
    decreases entries.len(),
{
    if entries.len() == 0 {
        Seq::empty()
    } else {
        serialize_registry(entries.drop_last()) + registry_line(entries.last()) + seq!['\n']
    }
}

/// A game that a registry file can hold and give back unchanged: a non-empty name
/// without tab or line break, and a non-empty target without line break that does not
/// end with a carriage return.
pub open spec fn storable_entry(e: GameEntryView) -> bool {
    &&& e.name.len() > 0
    &&& lacks_char(e.name, '\t')
    &&& lacks_char(e.name, '\n')
    &&& e.launch_target.len() > 0
    &&& lacks_char(e.launch_target, '\n')
    &&& e.launch_target.last() != '\r'
}

/// The game described by one registry line, if any.
pub fn parse_registry_line_chars(line: &Vec<char>) -> (r: Option<GameEntry>)
    ensures
        match r {
            Some(e) => parse_registry_line(line@) == Some(e@),
            None => parse_registry_line(line@) is None,
        },
{
    if is_blank_chars(line) {
        return None;
    }
    let (name, rest) = split_once_char(line, '\t');
    let (second, third) = split_once_char(&rest, '\t');
    if name.len() == 0 {
        return None;
    }
    if third.len() > 0 {
        let second_str = string_of(&second);
        match RunnerKind::from_str(second_str.as_str()) {
            Some(kind) => Some(
                GameEntry {
                    name: string_of(&name),
                    runner_kind: kind,
                    launch_target: string_of(&third),
                },
            ),
            None => None,
        }
    } else if second.len() > 0 {
        Some(
            GameEntry {
                name: string_of(&name),
                runner_kind: RunnerKind::Bash,
                launch_target: string_of(&second),
            },
        )
    } else {
        None
    }
}

/// The games described by the contents of a registry file, in file order. Blank lines,
/// rows without a name and rows with an unknown runner are skipped.
pub fn parse_entries_from_text(contents: &str) -> (r: Vec<GameEntry>)
    ensures
        entries_view(r@) == parse_registry(contents@),
{
    let lines = lines_of_str(contents);
    let ghost lv = vecs_view(lines@);
    let mut entries: Vec<GameEntry> = Vec::new();
    let mut i: usize = 0;
    while i < lines.len()
        invariant
            i <= lines@.len(),
            lv == vecs_view(lines@),
            entries_view(entries@) == parse_registry_lines(lv.take(i as int)),
        decreases lines.len() - i,
    {
        let ghost before = entries_view(entries@);
        assert(lv.take(i + 1).drop_last() =~= lv.take(i as int));
        assert(lv.take(i + 1).last() == lines@[i as int]@);
        match parse_registry_line_chars(&lines[i]) {
            Some(e) => {
                entries.push(e);
                assert(entries_view(entries@) =~= before.push(e@));
            },
            None => {},
        }
        i += 1;
    }
    assert(lv.take(lines@.len() as int) =~= lv);
    entries
}

/// The contents of a registry file holding `entries`: one `name<TAB>runner<TAB>target`
/// line per game, in order.
pub fn serialize_entries(entries: &[GameEntry]) -> (r: String)
    ensures
        r@ == serialize_registry(entries_view(entries@)),
{
    let mut out: Vec<char> = Vec::new();
    let mut i: usize = 0;
    while i < entries.len()
        invariant
            i <= entries@.len(),
            out@ == serialize_registry(entries_view(entries@).take(i as int)),
        decreases entries.len() - i,
    {
        let e = &entries[i];
        let ghost before = out@;
        append_str(&mut out, e.name.as_str());
        out.push('\t');
        append_str(&mut out, e.runner_kind.as_str());
        out.push('\t');
        append_str(&mut out, e.launch_target.as_str());
        out.push('\n');
        proof {
            let es = entries_view(entries@).take(i + 1);
            assert(es.drop_last() =~= entries_view(entries@).take(i as int));
            assert(es.last() == e@);
            assert(out@ =~= before + registry_line(e@) + seq!['\n']);
        }
        i += 1;
    }
    assert(entries_view(entries@).take(entries@.len() as int) =~= entries_view(entries@));
    string_of(&out)
}

// ---------------------------------------------------------------------------
// The round trip of the registry file
// ---------------------------------------------------------------------------

/// The registry line of a storable game holds no line break.
proof fn lemma_registry_line_lacks_newline(e: GameEntryView)
    requires
        storable_entry(e),
    ensures
        lacks_char(registry_line(e), '\n'),
{
    let k = runner_kind_name(e.runner_kind);
    let line = registry_line(e);
    assert forall|i: int| 0 <= i < line.len() implies #[trigger] line[i] != '\n' by {
        let a = e.name.len() as int;
        let b = a + 1 + k.len();
        if i < a {
            assert(line[i] == e.name[i]);
        } else if i == a {
        } else if i < b {
            assert(line[i] == k[i - a - 1]);
        } else if i == b {
        } else {
            assert(line[i] == e.launch_target[i - b - 1]);
        }
    }
}

/// Splitting the contents of a registry file at line breaks gives its lines and a final
/// empty piece.
proof fn lemma_split_serialized(es: Seq<GameEntryView>)
    requires
        forall|i: int| 0 <= i < es.len() ==> storable_entry(#[trigger] es[i]),
    ensures
        split_on(serialize_registry(es), '\n') == Seq::new(
            es.len(),
            |i: int| registry_line(es[i]),
        ).push(Seq::<char>::empty()),
    decreases es.len(),
{
    if es.len() == 0 {
        assert(split_on(serialize_registry(es), '\n') =~= seq![Seq::<char>::empty()]);
        assert(Seq::new(es.len(), |i: int| registry_line(es[i])).push(Seq::<char>::empty())
            =~= seq![Seq::<char>::empty()]);
    } else {
        let prev = es.drop_last();
        assert forall|i: int| 0 <= i < prev.len() implies storable_entry(#[trigger] prev[i]) by {
            assert(prev[i] == es[i]);
        }
        lemma_split_serialized(prev);
        let s0 = serialize_registry(prev);
        let line = registry_line(es.last());
        assert(storable_entry(es[es.len() - 1]));
        lemma_registry_line_lacks_newline(es.last());
        lemma_split_on_append_plain(s0, line, '\n');
        lemma_split_on_push_sep(s0 + line, '\n');
        assert(serialize_registry(es) == (s0 + line).push('\n')) by {
            assert(s0 + line + seq!['\n'] =~= (s0 + line).push('\n'));
        }
        let p0 = split_on(s0, '\n');
        assert(p0.last() + line =~= line);
        assert(split_on(serialize_registry(es), '\n') =~= Seq::new(
            es.len(),
            |i: int| registry_line(es[i]),
        ).push(Seq::<char>::empty()));
    }
}

/// The line of a storable game is read back as that game.
proof fn lemma_parse_registry_line(e: GameEntryView)
    requires
        storable_entry(e),
    ensures
        parse_registry_line(registry_line(e)) == Some(e),
        strip_cr(registry_line(e)) == registry_line(e),
{
    let k = runner_kind_name(e.runner_kind);
    let line = registry_line(e);
    let rest = k + seq!['\t'] + e.launch_target;
    assert(line =~= e.name + seq!['\t'] + rest);
    lemma_index_of_char_concat(e.name, rest, '\t');
    assert(lacks_char(k, '\t'));
    lemma_index_of_char_concat(k, e.launch_target, '\t');
    lemma_runner_kind_name_round_trip(e.runner_kind);
    // the runner name is not whitespace, so the line is not blank
    let a = e.name.len() as int;
    assert(line[a + 1] == k[0]);
    assert(!is_white_space(k[0]));
    lemma_trim_empty_iff_blank(line);
    assert(line.last() == e.launch_target.last());
}

/// The games read back from the lines of a registry file are the games written.
proof fn lemma_parse_registry_lines(es: Seq<GameEntryView>)
    requires
        forall|i: int| 0 <= i < es.len() ==> storable_entry(#[trigger] es[i]),
    ensures
        parse_registry_lines(Seq::new(es.len(), |i: int| registry_line(es[i]))) == es,
    decreases es.len(),
{
    let lines = Seq::new(es.len(), |i: int| registry_line(es[i]));
    if es.len() > 0 {
        let prev = es.drop_last();
        assert forall|i: int| 0 <= i < prev.len() implies storable_entry(#[trigger] prev[i]) by {
            assert(prev[i] == es[i]);
        }
        lemma_parse_registry_lines(prev);
        assert(lines.drop_last() =~= Seq::new(prev.len(), |i: int| registry_line(prev[i])));
        assert(storable_entry(es[es.len() - 1]));
        lemma_parse_registry_line(es.last());
        assert(es =~= prev.push(es.last()));
    } else {
        assert(es =~= Seq::<GameEntryView>::empty());
    }
}

/// Writing storable games to a registry file and reading the file gives back the same
/// games, in the same order.
pub proof fn lemma_registry_round_trip(entries: Seq<GameEntryView>)
    requires
        forall|i: int| 0 <= i < entries.len() ==> storable_entry(#[trigger] entries[i]),
    ensures
        parse_registry(serialize_registry(entries)) == entries,
{
    lemma_split_serialized(entries);
    let parts = split_on(serialize_registry(entries), '\n');
    let lines = Seq::new(entries.len(), |i: int| registry_line(entries[i]));
    assert forall|i: int| 0 <= i < entries.len() implies strip_cr(#[trigger] lines[i])
        == lines[i] by {
        lemma_parse_registry_line(entries[i]);
    }
    assert(lines_seq(serialize_registry(entries)) =~= lines);
    lemma_parse_registry_lines(entries);
}

// ---------------------------------------------------------------------------
// Blacklist
// ---------------------------------------------------------------------------

/// What a blacklist file holds when nothing is blacklisted yet.
pub const DEFAULT_BLACKLIST_TEMPLATE: &'static str =
    "# Basalt blacklist\n# One game name per line.\n# Lines starting with # are ignored.\n";

/// Whether a blacklist line names a game: not blank and, trimmed, not a `#` comment.
pub open spec fn is_blacklist_entry_line(line: Seq<char>) -> bool {
    let t = trim_seq(line);
    t.len() > 0 && t[0] != '#'
}

/// The lowercased names that the blacklist lines `lines` hold, in order.
pub open spec fn blacklist_names_of_lines(lines: Seq<Seq<char>>) -> Seq<Seq<char>>
    decreases lines.len(),
{
    if lines.len() == 0 {
        Seq::empty()
    } else {
        let prev = blacklist_names_of_lines(lines.drop_last());
        if is_blacklist_entry_line(lines.last()) {
            prev.push(unicode_lowercase(trim_seq(lines.last())))
        } else {
            prev
        }
    }
}

/// The lowercased names that a blacklist file with contents `contents` holds.
pub open spec fn blacklist_names(contents: Seq<char>) -> Seq<Seq<char>> {
    blacklist_names_of_lines(lines_seq(contents))
}

/// The lowercased names in a blacklist file, in file order.
pub fn read_blacklisted_names(contents: &str) -> (r: Vec<String>)
    ensures
        strings_view(r@) == blacklist_names(contents@),
{
    let lines = lines_of_str(contents);
    let ghost lv = vecs_view(lines@);
    let mut names: Vec<String> = Vec::new();
    let mut i: usize = 0;
    while i < lines.len()
        invariant
            i <= lines@.len(),
            lv == vecs_view(lines@),
            strings_view(names@) == blacklist_names_of_lines(lv.take(i as int)),
        decreases lines.len() - i,
    {
        let ghost before = strings_view(names@);
        assert(lv.take(i + 1).drop_last() =~= lv.take(i as int));
        assert(lv.take(i + 1).last() == lines@[i as int]@);
        let trimmed = trim_chars(&lines[i]);
        if trimmed.len() > 0 && trimmed[0] != '#' {
            let t = string_of(&trimmed);
            let lowered = to_lowercase(t.as_str());
            names.push(lowered);
            assert(strings_view(names@) =~= before.push(unicode_lowercase(trim_seq(lv[i as int]))));
        }
        i += 1;
    }
    assert(lv.take(lines@.len() as int) =~= lv);
    names
}

/// Whether a blacklist file with contents `contents` names at least one game.
pub fn has_active_blacklist_entries(contents: &str) -> (r: bool)
    ensures
        r == (blacklist_names(contents@).len() > 0),
{
    let lines = lines_of_str(contents);
    let ghost lv = vecs_view(lines@);
    let mut i: usize = 0;
    while i < lines.len()
        invariant
            i <= lines@.len(),
            lv == vecs_view(lines@),
            lv == lines_seq(contents@),
            blacklist_names_of_lines(lv.take(i as int)).len() == 0,
        decreases lines.len() - i,
    {
        assert(lv.take(i + 1).drop_last() =~= lv.take(i as int));
        assert(lv.take(i + 1).last() == lines@[i as int]@);
        let trimmed = trim_chars(&lines[i]);
        if trimmed.len() > 0 && trimmed[0] != '#' {
            proof {
                assert(is_blacklist_entry_line(lv.take(i + 1).last()));
                assert(blacklist_names_of_lines(lv.take(i + 1)).len() > 0);
                lemma_blacklist_names_grow(lv, i as int + 1);
            }
            return true;
        }
        i += 1;
    }
    assert(lv.take(lines@.len() as int) =~= lv);
    false
}

/// The names of a prefix of the lines are at most those of all lines.
proof fn lemma_blacklist_names_grow(lines: Seq<Seq<char>>, k: int)
    requires
        0 <= k <= lines.len(),
    ensures
        blacklist_names_of_lines(lines.take(k)).len() <= blacklist_names_of_lines(lines).len(),
    decreases lines.len() - k,
{
    if k < lines.len() {
        let t = lines.take(k + 1);
        assert(t.drop_last() =~= lines.take(k));
        lemma_blacklist_names_grow(lines, k + 1);
    } else {
        assert(lines.take(k) =~= lines);
    }
}

/// The contents to seed a new blacklist file with: the bundled blacklist when there is
/// one, else the default template.
pub fn blacklist_seed_contents(bundled: Option<String>) -> (r: String)
    ensures
        match bundled {
            Some(b) => r@ == b@,
            None => r@ == DEFAULT_BLACKLIST_TEMPLATE@,
        },
{
    match bundled {
        Some(b) => b,
        None => DEFAULT_BLACKLIST_TEMPLATE.to_owned(),
    }
}

/// The contents to rewrite an existing blacklist file with, if any: when the file names
/// no game, still holds just the default template (up to surrounding whitespace), and the
/// bundled blacklist names at least one game, the bundled blacklist replaces it.
pub fn blacklist_backfill_contents(existing: &str, bundled: Option<String>) -> (r: Option<
    String,
>)
    ensures
        match r {
            Some(c) => bundled matches Some(b) && c@ == b@ && blacklist_names(existing@).len()
                == 0 && trim_seq(existing@) == trim_seq(DEFAULT_BLACKLIST_TEMPLATE@)
                && blacklist_names(b@).len() > 0,
            None => !(bundled matches Some(b) && blacklist_names(existing@).len() == 0
                && trim_seq(existing@) == trim_seq(DEFAULT_BLACKLIST_TEMPLATE@)
                && blacklist_names(b@).len() > 0),
        },
{
    if has_active_blacklist_entries(existing) {
        return None;
    }
    let t_existing = trim_str(existing);
    let t_template = trim_str(DEFAULT_BLACKLIST_TEMPLATE);
    if !str_eq(t_existing.as_str(), t_template.as_str()) {
        return None;
    }
    match bundled {
        Some(b) => {
            if has_active_blacklist_entries(b.as_str()) {
                Some(b)
            } else {
                None
            }
        },
        None => None,
    }
}

/// Whether `name`, lowercased, is among the blacklisted names.
pub fn is_name_blacklisted(name: &str, blacklisted: &[String]) -> (r: bool)
    ensures
        r == names_contain(strings_view(blacklisted@), unicode_lowercase(name@)),
{
    let lowered = to_lowercase(name);
    strings_contain(blacklisted, lowered.as_str())
}

} // verus!
