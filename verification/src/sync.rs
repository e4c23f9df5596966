//! Planning a one-way sync of a directory of ROMs or saves: which files are copied,
//! which are already up to date, and which destination files are deleted so that the
//! destination holds exactly the source's files.
use vstd::prelude::*;

use crate::text::{chars_eq, chars_of, chars_starts_with, starts_with_seq};
use crate::types::{names_contain, strings_view};

verus! {

broadcast use vstd::string::group_string_axioms;

/// What the destination holds at the relative path of a source file.
#[derive(Clone, Copy, PartialEq, Eq, Structural, Debug)]
pub enum DestinationState {
    /// Nothing.
    Missing,
    /// A directory, which the copy replaces.
    Directory,
    /// A file with the same contents.
    SameContents,
    /// A file with other contents.
    DifferentContents,
}

/// A file of the source directory, by its path relative to that directory, with what
/// the destination holds at that path.
#[derive(Clone, Debug)]
pub struct SourceFile {
    pub relative_path: String,
    pub destination: DestinationState,
}

/// The contents of a source file record.
pub struct SourceFileView {
    pub relative_path: Seq<char>,
    pub destination: DestinationState,
}

impl View for SourceFile {
    type V = SourceFileView;

    open spec fn view(&self) -> SourceFileView {
        SourceFileView { relative_path: self.relative_path@, destination: self.destination }
    }
}

/// The contents of a sequence of source file records.
pub open spec fn sources_view(v: Seq<SourceFile>) -> Seq<SourceFileView> {
    Seq::new(v.len(), |i: int| v[i]@)
}

/// What a sync does, in the order in which it is done: first each source file is copied
/// or left as it is (a directory in its way is removed first), then the destination
/// files that the source lacks are deleted.
pub struct SyncPlan {
    pub copy: Vec<String>,
    pub clear_directory: Vec<String>,
    pub unchanged: Vec<String>,
    pub delete: Vec<String>,
}

/// How many files a sync copied, left unchanged and deleted.
#[derive(Clone, Copy, Debug)]
pub struct RomSyncReport {
    pub copied: usize,
    pub unchanged: usize,
    pub deleted: usize,
}

/// The relative paths of the source files.
pub open spec fn source_paths(s: Seq<SourceFileView>) -> Seq<Seq<char>> {
    Seq::new(s.len(), |i: int| s[i].relative_path)
}

/// The source files whose destination state satisfies `keep`, by relative path.
pub open spec fn paths_where(s: Seq<SourceFileView>, keep: spec_fn(DestinationState) -> bool) -> Seq<
    Seq<char>,
>
    decreases s.len(),
{
    if s.len() == 0 {
        Seq::empty()
    } else {
        let rest = paths_where(s.drop_last(), keep);
        if keep(s.last().destination) {
            rest.push(s.last().relative_path)
        } else {
            rest
        }
    }
}

/// Source files that are copied: all but those whose destination has the same contents.
pub open spec fn copied_paths(s: Seq<SourceFileView>) -> Seq<Seq<char>> {
    paths_where(s, |d: DestinationState| d != DestinationState::SameContents)
}

/// Source files that are left as they are.
pub open spec fn unchanged_paths(s: Seq<SourceFileView>) -> Seq<Seq<char>> {
    paths_where(s, |d: DestinationState| d == DestinationState::SameContents)
}

/// Source files whose destination path holds a directory, removed before the copy.
pub open spec fn cleared_paths(s: Seq<SourceFileView>) -> Seq<Seq<char>> {
    paths_where(s, |d: DestinationState| d == DestinationState::Directory)
}

/// Whether the destination file `d` lies inside a directory that the sync removes.
pub open spec fn is_shadowed(d: Seq<char>, s: Seq<SourceFileView>) -> bool {
    exists|i: int|
        0 <= i < s.len() && #[trigger] s[i].destination == DestinationState::Directory
            && starts_with_seq(d, s[i].relative_path + seq!['/'])
}

/// Whether the destination file `d` is deleted: the source lacks it, and no removed
/// directory took it away already.
pub open spec fn is_deleted(d: Seq<char>, s: Seq<SourceFileView>) -> bool {
    !names_contain(source_paths(s), d) && !is_shadowed(d, s)
}

/// The destination files that are deleted, in destination order.
pub open spec fn deleted_paths(dest: Seq<Seq<char>>, s: Seq<SourceFileView>) -> Seq<Seq<char>>
    decreases dest.len(),
{
    if dest.len() == 0 {
        Seq::empty()
    } else {
        let rest = deleted_paths(dest.drop_last(), s);
        if is_deleted(dest.last(), s) {
            rest.push(dest.last())
        } else {
            rest
        }
    }
}

/// Every path that `paths_where` keeps is a source path, and each source path whose
/// state `keep` accepts is kept; the kept and the rest together number the sources.
pub proof fn lemma_paths_where(s: Seq<SourceFileView>, keep: spec_fn(DestinationState) -> bool)
    ensures
        forall|p: Seq<char>| #[trigger]
            names_contain(paths_where(s, keep), p) <==> exists|i: int|
                0 <= i < s.len() && s[i].relative_path == p && keep(#[trigger] s[i].destination),
        paths_where(s, keep).len() + paths_where(s, |d: DestinationState| !keep(d)).len()
            == s.len(),
    decreases s.len(),
{
    if s.len() > 0 {
        let t = s.drop_last();
        lemma_paths_where(t, keep);
        let rest = paths_where(t, keep);
        let all = paths_where(s, keep);
        assert forall|p: Seq<char>| #[trigger]
            names_contain(all, p) <==> exists|i: int|
                0 <= i < s.len() && s[i].relative_path == p && keep(
                    #[trigger] s[i].destination,
                ) by {
            if names_contain(all, p) {
                let k = choose|k: int| 0 <= k < all.len() && #[trigger] all[k] == p;
                if k < rest.len() {
                    assert(rest[k] == p);
                    assert(names_contain(rest, p));
                    let i = choose|i: int|
                        0 <= i < t.len() && t[i].relative_path == p && keep(
                            #[trigger] t[i].destination,
                        );
                    assert(s[i] == t[i]);
                } else {
                    assert(s[s.len() - 1].relative_path == p);
                    assert(keep(s[s.len() - 1].destination));
                }
            }
            if exists|i: int|
                0 <= i < s.len() && s[i].relative_path == p && keep(#[trigger] s[i].destination) {
                let i = choose|i: int|
                    0 <= i < s.len() && s[i].relative_path == p && keep(
                        #[trigger] s[i].destination,
                    );
                if i < t.len() {
                    assert(t[i] == s[i]);
                    assert(names_contain(rest, p));
                    let k = choose|k: int| 0 <= k < rest.len() && #[trigger] rest[k] == p;
                    assert(all[k] == p);
                } else {
                    assert(all[all.len() - 1] == p);
                }
            }
        }
    }
}

/// The files in the destination after the sync: the destination's files that were
/// neither deleted nor removed with a directory, and every file copied or left.
pub open spec fn files_after_sync(dest: Seq<Seq<char>>, s: Seq<SourceFileView>) -> Set<Seq<char>> {
    Set::new(
        |p: Seq<char>|
            (names_contain(dest, p) && !is_deleted(p, s) && !is_shadowed(p, s)) || names_contain(
                copied_paths(s),
                p,
            ) || names_contain(unchanged_paths(s), p),
    )
}

/// After a sync the destination holds exactly the source's files.
pub proof fn lemma_sync_mirrors_source(dest: Seq<Seq<char>>, s: Seq<SourceFileView>)
    ensures
        files_after_sync(dest, s) == source_paths(s).to_set(),
{
    lemma_paths_where(s, |d: DestinationState| d != DestinationState::SameContents);
    lemma_paths_where(s, |d: DestinationState| d == DestinationState::SameContents);
    let after = files_after_sync(dest, s);
    let src = source_paths(s).to_set();
    assert forall|p: Seq<char>| after.contains(p) implies src.contains(p) by {
        if names_contain(dest, p) && !is_deleted(p, s) && !is_shadowed(p, s) {
            let i = choose|i: int| 0 <= i < source_paths(s).len() && #[trigger] source_paths(s)[i] == p;
            assert(source_paths(s).contains(p));
        } else if names_contain(copied_paths(s), p) {
            let i = choose|i: int|
                0 <= i < s.len() && s[i].relative_path == p && (|d: DestinationState|
                    d != DestinationState::SameContents)(#[trigger] s[i].destination);
            assert(source_paths(s)[i] == p);
        } else {
            let i = choose|i: int|
                0 <= i < s.len() && s[i].relative_path == p && (|d: DestinationState|
                    d == DestinationState::SameContents)(#[trigger] s[i].destination);
            assert(source_paths(s)[i] == p);
        }
    }
    assert forall|p: Seq<char>| src.contains(p) implies after.contains(p) by {
        let i = choose|i: int| 0 <= i < source_paths(s).len() && source_paths(s)[i] == p;
        assert(s[i].relative_path == p);
        if s[i].destination == DestinationState::SameContents {
            assert((|d: DestinationState| d == DestinationState::SameContents)(s[i].destination));
            assert(names_contain(unchanged_paths(s), p));
        } else {
            assert((|d: DestinationState| d != DestinationState::SameContents)(s[i].destination));
            assert(names_contain(copied_paths(s), p));
        }
    }
    assert(after =~= src);
}

/// The paths kept by `paths_where` are those of the source files whose state `keep`
/// accepts, in order.
proof fn lemma_paths_where_filter(s: Seq<SourceFileView>, keep: spec_fn(DestinationState) -> bool)
    ensures
        paths_where(s, keep) == source_paths(s.filter(|f: SourceFileView| keep(f.destination))),
    decreases s.len(),
{
    reveal(Seq::filter);
    let pred = |f: SourceFileView| keep(f.destination);
    if s.len() == 0 {
        assert(source_paths(s.filter(pred)) =~= Seq::<Seq<char>>::empty());
    } else {
        lemma_paths_where_filter(s.drop_last(), keep);
        let prev = s.drop_last().filter(pred);
        if keep(s.last().destination) {
            assert(s.filter(pred) == prev.push(s.last()));
            assert(source_paths(prev.push(s.last())) =~= source_paths(prev).push(
                s.last().relative_path,
            ));
        } else {
            assert(s.filter(pred) == prev);
        }
    }
}

/// When no source file has a directory in its way, the counts of a sync are: unchanged,
/// the source files whose destination already has the same contents; copied, all the
/// other source files; deleted, the destination files that the source lacks, in
/// destination order.
pub proof fn lemma_sync_counts(dest: Seq<Seq<char>>, s: Seq<SourceFileView>)
    requires
        forall|i: int| 0 <= i < s.len() ==> #[trigger] s[i].destination != DestinationState::Directory,
    ensures
        unchanged_paths(s) == source_paths(
            s.filter(|f: SourceFileView| f.destination == DestinationState::SameContents),
        ),
        copied_paths(s) == source_paths(
            s.filter(|f: SourceFileView| f.destination != DestinationState::SameContents),
        ),
        copied_paths(s).len() + unchanged_paths(s).len() == s.len(),
        deleted_paths(dest, s) == dest.filter(|d: Seq<char>| !names_contain(source_paths(s), d)),
    decreases dest.len(),
{
    let same = |d: DestinationState| d == DestinationState::SameContents;
    let other = |d: DestinationState| d != DestinationState::SameContents;
    lemma_paths_where_filter(s, same);
    lemma_paths_where_filter(s, other);
    assert((|f: SourceFileView| same(f.destination)) =~= (|f: SourceFileView|
        f.destination == DestinationState::SameContents));
    assert((|f: SourceFileView| other(f.destination)) =~= (|f: SourceFileView|
        f.destination != DestinationState::SameContents));
    lemma_paths_where(s, other);
    assert(paths_where(s, |d: DestinationState| !other(d)) == paths_where(s, same)) by {
        assert((|d: DestinationState| !other(d)) =~= same);
    }
    reveal(Seq::filter);
    if dest.len() > 0 {
        lemma_sync_counts(dest.drop_last(), s);
        assert(!is_shadowed(dest.last(), s));
    }
}

/// Whether the destination file `d` lies inside the directory at the relative path of
/// one of `sources` that the sync removes.
fn shadowed_by_cleared_directory(d: &Vec<char>, sources: &[SourceFile]) -> (r: bool)
    ensures
        r == is_shadowed(d@, sources_view(sources@)),
{
    let ghost s = sources_view(sources@);
    let mut i: usize = 0;
    while i < sources.len()
        invariant
            i <= sources@.len(),
            s == sources_view(sources@),
            forall|j: int|
                0 <= j < i ==> !(#[trigger] s[j].destination == DestinationState::Directory
                    && starts_with_seq(d@, s[j].relative_path + seq!['/'])),
        decreases sources.len() - i,
    {
        assert(s[i as int] == sources@[i as int]@);
        if sources[i].destination == DestinationState::Directory {
            let mut prefix = chars_of(sources[i].relative_path.as_str());
            prefix.push('/');
            assert(prefix@ =~= s[i as int].relative_path + seq!['/']);
            if chars_starts_with(d, &prefix) {
                assert(s[i as int].destination == DestinationState::Directory && starts_with_seq(
                    d@,
                    s[i as int].relative_path + seq!['/'],
                ));
                return true;
            }
        }
        i += 1;
    }
    false
}

/// The plan that syncs the destination with the source: `sources` are the source's
/// files, with what the destination holds at each; `destination_files` are the files
/// that the destination holds, by relative path.
pub fn plan_directory_sync(sources: &[SourceFile], destination_files: &[String]) -> (r: SyncPlan)
    ensures
        strings_view(r.copy@) == copied_paths(sources_view(sources@)),
        strings_view(r.clear_directory@) == cleared_paths(sources_view(sources@)),
        strings_view(r.unchanged@) == unchanged_paths(sources_view(sources@)),
        strings_view(r.delete@) == deleted_paths(
            strings_view(destination_files@),
            sources_view(sources@),
        ),
        r.copy@.len() + r.unchanged@.len() == sources@.len(),
{
    let ghost s = sources_view(sources@);
    let mut copy: Vec<String> = Vec::new();
    let mut clear_directory: Vec<String> = Vec::new();
    let mut unchanged: Vec<String> = Vec::new();
    let mut i: usize = 0;
    while i < sources.len()
        invariant
            i <= sources@.len(),
            s == sources_view(sources@),
            strings_view(copy@) == copied_paths(s.take(i as int)),
            strings_view(clear_directory@) == cleared_paths(s.take(i as int)),
            strings_view(unchanged@) == unchanged_paths(s.take(i as int)),
        decreases sources.len() - i,
    {
        let ghost t = s.take(i + 1);
        assert(t.drop_last() =~= s.take(i as int));
        assert(t.last() == sources@[i as int]@);
        let ghost old_copy = strings_view(copy@);
        let ghost old_clear = strings_view(clear_directory@);
        let ghost old_unchanged = strings_view(unchanged@);
        let source = &sources[i];
        match source.destination {
            DestinationState::SameContents => {
                unchanged.push(source.relative_path.clone());
                assert(strings_view(unchanged@) =~= old_unchanged.push(source.relative_path@));
            },
            DestinationState::Directory => {
                clear_directory.push(source.relative_path.clone());
                copy.push(source.relative_path.clone());
                assert(strings_view(clear_directory@) =~= old_clear.push(source.relative_path@));
                assert(strings_view(copy@) =~= old_copy.push(source.relative_path@));
            },
            _ => {
                copy.push(source.relative_path.clone());
                assert(strings_view(copy@) =~= old_copy.push(source.relative_path@));
            },
        }
        i += 1;
    }
    assert(s.take(sources@.len() as int) =~= s);
    let ghost dv = strings_view(destination_files@);
    let mut delete: Vec<String> = Vec::new();
    let mut j: usize = 0;
    while j < destination_files.len()
        invariant
            j <= destination_files@.len(),
            s == sources_view(sources@),
            dv == strings_view(destination_files@),
            strings_view(delete@) == deleted_paths(dv.take(j as int), s),
        decreases destination_files.len() - j,
    {
        let ghost t = dv.take(j + 1);
        assert(t.drop_last() =~= dv.take(j as int));
        let ghost old_delete = strings_view(delete@);
        let d = chars_of(destination_files[j].as_str());
        assert(t.last() == d@);
        let in_source = source_path_listed(sources, destination_files[j].as_str());
        let shadowed = shadowed_by_cleared_directory(&d, sources);
        if !in_source && !shadowed {
            delete.push(destination_files[j].clone());
            assert(strings_view(delete@) =~= old_delete.push(d@));
        }
        j += 1;
    }
    assert(dv.take(destination_files@.len() as int) =~= dv);
    proof {
        lemma_paths_where(s, |d: DestinationState| d == DestinationState::SameContents);
        assert((|d: DestinationState| !(|d: DestinationState| d == DestinationState::SameContents)(d))
            =~= (|d: DestinationState| d != DestinationState::SameContents));
    }
    SyncPlan { copy, clear_directory, unchanged, delete }
}

/// Whether `path` is the relative path of one of `sources`.
fn source_path_listed(sources: &[SourceFile], path: &str) -> (r: bool)
    ensures
        r == names_contain(source_paths(sources_view(sources@)), path@),
{
    let ghost sp = source_paths(sources_view(sources@));
    let target = chars_of(path);
    let mut i: usize = 0;
    while i < sources.len()
        invariant
            i <= sources@.len(),
            sp == source_paths(sources_view(sources@)),
            target@ == path@,
            forall|j: int| 0 <= j < i ==> #[trigger] sp[j] != path@,
        decreases sources.len() - i,
    {
        if chars_eq(&chars_of(sources[i].relative_path.as_str()), &target) {
            assert(sp[i as int] == path@);
            return true;
        }
        assert(sp[i as int] == sources@[i as int].relative_path@);
        i += 1;
    }
    false
}

impl SyncPlan {
    /// The counts of a sync carried out by this plan.
    pub fn report(&self) -> (r: RomSyncReport)
        ensures
            r.copied == self.copy@.len(),
            r.unchanged == self.unchanged@.len(),
            r.deleted == self.delete@.len(),
    {
        RomSyncReport {
            copied: self.copy.len(),
            unchanged: self.unchanged.len(),
            deleted: self.delete.len(),
        }
    }
}

} // verus!
