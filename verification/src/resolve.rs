use vstd::prelude::*;
use vstd::hash_set::StringHashSet;
use crate::paths::{is_lock_file, names_lock_file};
use crate::chars::views;

verus! {

/// A path that a pattern matched, and whether a regular file is there.
#[derive(Debug)]
pub struct Entry {
    pub path: String,
    pub is_file: bool,
}

/// Whether a matched path is a candidate for counting: a regular file that is
/// no lock file.
pub open spec fn is_candidate(path: Seq<char>, is_file: bool) -> bool {
    is_file && !is_lock_file(path)
}

/// The paths to count among `entries`: those of the candidates, each once, in
/// the order in which they first occur.
pub open spec fn resolved(entries: Seq<Entry>) -> Seq<Seq<char>>
    decreases entries.len(),
{
    if entries.len() == 0 {
        Seq::empty()
    } else {
        let before = resolved(entries.drop_last());
        let entry = entries.last();
        if is_candidate(entry.path@, entry.is_file) && !before.contains(entry.path@) {
            before.push(entry.path@)
        } else {
            before
        }
    }
}

/// The resolved paths are the paths of the candidates, and none of them occurs
/// twice.
pub proof fn lemma_resolved(entries: Seq<Entry>)
    ensures
        resolved(entries).no_duplicates(),
        forall|path: Seq<char>| #[trigger]
            resolved(entries).contains(path) <==> exists|i: int|
                0 <= i < entries.len() && #[trigger] entries[i].path@ == path && is_candidate(
                    path,
                    entries[i].is_file,
                ),
    decreases entries.len(),
{
    if entries.len() > 0 {
        let shorter = entries.drop_last();
        let before = resolved(shorter);
        let entry = entries.last();
        lemma_resolved(shorter);
        assert forall|path: Seq<char>| #[trigger]
            resolved(entries).contains(path) <==> exists|i: int|
                0 <= i < entries.len() && #[trigger] entries[i].path@ == path && is_candidate(
                    path,
                    entries[i].is_file,
                ) by {
            let added = is_candidate(entry.path@, entry.is_file) && !before.contains(entry.path@);
            if resolved(entries).contains(path) {
                if before.contains(path) {
                    let i = choose|i: int|
                        0 <= i < shorter.len() && #[trigger] shorter[i].path@ == path
                            && is_candidate(path, shorter[i].is_file);
                    assert(entries[i].path@ == path);
                } else {
                    assert(added);
                    let at = choose|at: int|
                        0 <= at < resolved(entries).len() && resolved(entries)[at] == path;
                    assert(at == before.len());
                    assert(entries[entries.len() - 1].path@ == path);
                }
            }
            if exists|i: int|
                0 <= i < entries.len() && #[trigger] entries[i].path@ == path && is_candidate(
                    path,
                    entries[i].is_file,
                ) {
                let i = choose|i: int|
                    0 <= i < entries.len() && #[trigger] entries[i].path@ == path && is_candidate(
                        path,
                        entries[i].is_file,
                    );
                if i < shorter.len() {
                    assert(shorter[i].path@ == path);
                    assert(before.contains(path));
                    let at = choose|at: int| 0 <= at < before.len() && before[at] == path;
                    assert(resolved(entries)[at] == path);
                } else if added {
                    assert(resolved(entries)[before.len() as int] == path);
                } else {
                    let at = choose|at: int| 0 <= at < before.len() && before[at] == path;
                    assert(resolved(entries)[at] == path);
                }
            }
        }
    }
}

/// Whether a matched path is a candidate for counting.
pub fn accepts(path: &str, is_file: bool) -> (accepted: bool)
    ensures
        accepted == is_candidate(path@, is_file),
{
    is_file && !names_lock_file(path)
}

/// Picks the paths to count from what a pattern matched: regular files that
/// are no lock files, each path once, in the order in which they were matched.
pub fn resolve(entries: &Vec<Entry>) -> (paths: Vec<String>)
    ensures
        views(paths@) == resolved(entries@),
{
    let mut paths: Vec<String> = Vec::new();
    let mut seen = StringHashSet::new();
    let mut i: usize = 0;
    assert(views(paths@) =~= Seq::<Seq<char>>::empty());
    assert(entries@.take(0) =~= Seq::<Entry>::empty());
    while i < entries.len()
        invariant
            i <= entries.len(),
            views(paths@) == resolved(entries@.take(i as int)),
            seen@ == views(paths@).to_set(),
        decreases entries.len() - i,
    {
        let entry = &entries[i];
        proof {
            assert(entries@.take(i as int + 1).drop_last() =~= entries@.take(i as int));
            assert(entries@.take(i as int + 1).last() == entries@[i as int]);
        }
        if accepts(entry.path.as_str(), entry.is_file) && !seen.contains(entry.path.as_str()) {
            let path = entry.path.clone();
            proof {
                views(paths@).lemma_push_to_set_commute(path@);
                assert(views(paths@.push(path)) =~= views(paths@).push(path@));
            }
            seen.insert(entry.path.clone());
            paths.push(path);
        }
        i += 1;
    }
    assert(entries@.take(entries.len() as int) =~= entries@);
    paths
}

} // verus!
