//! The pruning pass: which files go, and when a directory can go with them.
//! A directory is walked entry by entry; the caller reports what each entry
//! is and carries out what is decided.

use vstd::prelude::*;

verus! {

/// What the caller found at one entry of a directory.
#[derive(Debug, Clone, Copy, PartialEq, Eq)]
pub enum PruneEvent {
    /// A directory below, already pruned, and whether it was removed.
    Subdirectory { removed: bool },
    /// A file, and whether the codec read a tag block from it.
    File { has_tags: bool },
    /// An entry that could not be read.
    Unreadable,
}

/// What is done with the entry.
#[derive(Debug, Clone, Copy, PartialEq, Eq)]
pub enum PruneAction {
    Keep,
    RemoveFile,
}

/// The entry stays in the directory: a file with tags, or a directory that
/// was not removed.
pub open spec fn stays(event: PruneEvent) -> bool {
    match event {
        PruneEvent::Subdirectory { removed } => !removed,
        PruneEvent::File { has_tags } => has_tags,
        PruneEvent::Unreadable => false,
    }
}

/// What is done with the entry: a file without tags is removed.
pub open spec fn action_on(event: PruneEvent) -> PruneAction {
    match event {
        PruneEvent::File { has_tags: false } => PruneAction::RemoveFile,
        _ => PruneAction::Keep,
    }
}

/// None of the entries stays.
pub open spec fn none_stays(events: Seq<PruneEvent>) -> bool {
    forall|i: int| 0 <= i < events.len() ==> !stays(#[trigger] events[i])
}

/// Takes one entry of a directory into account. `all_removed` tells whether
/// nothing stayed so far; the result tells the same with this entry
/// included, and what is done with the entry.
pub fn prune_step(all_removed: bool, event: PruneEvent) -> (r: (bool, PruneAction))
    ensures
        r.0 == (all_removed && !stays(event)),
        r.1 == action_on(event),
{
    match event {
        PruneEvent::Subdirectory { removed } => (all_removed && removed, PruneAction::Keep),
        PruneEvent::File { has_tags } => if has_tags {
            (false, PruneAction::Keep)
        } else {
            (all_removed, PruneAction::RemoveFile)
        },
        PruneEvent::Unreadable => (all_removed, PruneAction::Keep),
    }
}

/// Tells whether a directory with these entries is removed: it is where
/// none of them stays.
pub fn prune_directory(events: &Vec<PruneEvent>) -> (r: bool)
    ensures
        r == none_stays(events@),
{
    let n: usize = events.len();
    let mut all_removed = true;
    let mut i: usize = 0;
    while i < n
        invariant
            n == events.len(),
            i <= n,
            all_removed == none_stays(events@.take(i as int)),
        decreases n - i,
    {
        let step = prune_step(all_removed, events[i]);
        proof {
            let before = events@.take(i as int);
            let now = events@.take(i + 1);
            assert(now[i as int] == events@[i as int]);
            assert forall|j: int| 0 <= j < i implies now[j] == before[j] by {}
            if none_stays(now) {
                assert forall|j: int| 0 <= j < before.len() implies !stays(#[trigger] before[j]) by {
                    assert(before[j] == now[j]);
                }
            }
        }
        all_removed = step.0;
        i += 1;
    }
    assert(events@.take(n as int) =~= events@);
    all_removed
}

} // verus!
