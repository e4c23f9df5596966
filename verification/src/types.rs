//! The records that the launcher keeps and reports.
use vstd::prelude::*;

use crate::runners::RunnerKind;
use crate::text::{chars_eq, chars_of};

verus! {

/// A saved game: its unique name, the runner that launches it, and what the runner is
/// given (a script path, a Steam appid or an emulator launch target).
#[derive(Clone, Debug)]
pub struct GameEntry {
    pub name: String,
    pub runner_kind: RunnerKind,
    pub launch_target: String,
}

/// The contents of a saved game.
pub struct GameEntryView {
    pub name: Seq<char>,
    pub runner_kind: RunnerKind,
    pub launch_target: Seq<char>,
}

impl View for GameEntry {
    type V = GameEntryView;

    open spec fn view(&self) -> GameEntryView {
        GameEntryView {
            name: self.name@,
            runner_kind: self.runner_kind,
            launch_target: self.launch_target@,
        }
    }
}

impl GameEntry {
    /// A copy of this entry.
    pub fn duplicate(&self) -> (r: GameEntry)
        ensures
            r@ == self@,
    {
        GameEntry {
            name: self.name.clone(),
            runner_kind: self.runner_kind,
            launch_target: self.launch_target.clone(),
        }
    }
}

/// The contents of a sequence of saved games.
pub open spec fn entries_view(entries: Seq<GameEntry>) -> Seq<GameEntryView> {
    Seq::new(entries.len(), |i: int| entries[i]@)
}

/// A copy of a list of saved games.
pub fn copy_entries(entries: &[GameEntry]) -> (r: Vec<GameEntry>)
    ensures
        entries_view(r@) == entries_view(entries@),
{
    let mut r: Vec<GameEntry> = Vec::new();
    let mut i: usize = 0;
    while i < entries.len()
        invariant
            i <= entries@.len(),
            entries_view(r@) =~= entries_view(entries@).take(i as int),
        decreases entries.len() - i,
    {
        let ghost before = entries_view(r@);
        r.push(entries[i].duplicate());
        assert(entries_view(r@) =~= before.push(entries@[i as int]@));
        i += 1;
    }
    assert(entries_view(entries@).take(entries@.len() as int) =~= entries_view(entries@));
    r
}

/// A playlist: its name and the names of its games, in ascending order.
#[derive(Clone, Debug)]
pub struct Playlist {
    pub name: String,
    pub game_names: Vec<String>,
}

/// The outcome of looking for one game.
#[derive(Clone, Copy, PartialEq, Eq, Structural, Debug)]
pub enum DiscoverResult {
    Added,
    AlreadyExists,
    NotFound,
}

/// A source of games that discovery can search.
#[derive(Clone, Copy, PartialEq, Eq, Structural, Debug)]
pub enum DiscoverRunner {
    Mattmc,
    Steam,
    Emulators,
}

/// Counts from a discovery of Steam games.
#[derive(Clone, Copy, PartialEq, Eq, Structural, Debug)]
pub struct SteamDiscoverReport {
    pub found: usize,
    pub added: usize,
    pub already_exists: usize,
}

/// Counts from a discovery of emulator ROMs.
#[derive(Clone, Copy, PartialEq, Eq, Structural, Debug)]
pub struct EmulatorDiscoverReport {
    pub found: usize,
    pub added: usize,
    pub updated: usize,
    pub already_exists: usize,
}

/// The outcome of a discovery, with a part for each source that was searched.
#[derive(Clone, Copy, PartialEq, Eq, Structural, Debug)]
pub struct DiscoverReport {
    pub mattmc: Option<DiscoverResult>,
    pub steam: Option<SteamDiscoverReport>,
    pub emulators: Option<EmulatorDiscoverReport>,
}

/// Every discovery source, in the order in which discovery searches them.
pub fn all_discover_runners() -> (r: Vec<DiscoverRunner>)
    ensures
        r@ == seq![DiscoverRunner::Mattmc, DiscoverRunner::Steam, DiscoverRunner::Emulators],
{
    let r = vec![DiscoverRunner::Mattmc, DiscoverRunner::Steam, DiscoverRunner::Emulators];
    assert(r@ =~= seq![DiscoverRunner::Mattmc, DiscoverRunner::Steam, DiscoverRunner::Emulators]);
    r
}

/// Whether a name occurs among `names`.
pub open spec fn names_contain(names: Seq<Seq<char>>, name: Seq<char>) -> bool {
    exists|i: int| 0 <= i < names.len() && #[trigger] names[i] == name
}

/// The character sequences held by a sequence of strings.
pub open spec fn strings_view(v: Seq<String>) -> Seq<Seq<char>> {
    Seq::new(v.len(), |i: int| v[i]@)
}

/// Whether `name` is one of `names`.
pub fn strings_contain(names: &[String], name: &str) -> (r: bool)
    ensures
        r == names_contain(strings_view(names@), name@),
{
    let target = chars_of(name);
    let mut i: usize = 0;
    while i < names.len()
        invariant
            i <= names@.len(),
            target@ == name@,
            forall|j: int| 0 <= j < i ==> strings_view(names@)[j] != name@,
        decreases names.len() - i,
    {
        let candidate = chars_of(names[i].as_str());
        if chars_eq(&candidate, &target) {
            assert(strings_view(names@)[i as int] == name@);
            return true;
        }
        i += 1;
    }
    false
}

} // verus!
