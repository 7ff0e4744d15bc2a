//! The rules of the colormap editor: which colour stops may be deleted, and
//! which stop stays selected after a deletion.

use vstd::prelude::*;

verus! {

/// A colormap keeps at least two stops, so a stop may be deleted only while
/// there are more than two.
pub fn can_remove_stop(stop_count: usize) -> (b: bool)
    ensures
        b == (stop_count > 2),
        b ==> stop_count - 1 >= 2,
{
    stop_count > 2
}

/// The editor's selection after the stop at index `removed` was deleted: a
/// selection of that stop is cleared, one after it moves down by one, one
/// before it stays.
pub open spec fn selection_after_removal_of(selected: Option<usize>, removed: usize) -> Option<usize> {
    match selected {
        None => None,
        Some(s) => if s == removed {
            None
        } else if s > removed {
            Some((s - 1) as usize)
        } else {
            Some(s)
        },
    }
}

/// Adjusts the selected stop index after the stop at `removed` was deleted.
pub fn selection_after_removal(selected: Option<usize>, removed: usize) -> (r: Option<usize>)
    ensures
        r == selection_after_removal_of(selected, removed),
{
    match selected {
        None => None,
        Some(s) => {
            if s == removed {
                None
            } else if s > removed {
                Some(s - 1)
            } else {
                Some(s)
            }
        },
    }
}

/// After a deletion the selection, when it survives, still designates the
/// same stop in the shortened list of stops.
pub proof fn selection_follows_its_stop<A>(stops: Seq<A>, selected: usize, removed: usize)
    requires
        selected < stops.len(),
        removed < stops.len(),
        selected != removed,
    ensures
        ({
            let r = selection_after_removal_of(Some(selected), removed);
            &&& r is Some
            &&& r->0 < stops.remove(removed as int).len()
            &&& stops.remove(removed as int)[r->0 as int] == stops[selected as int]
        }),
{
}

} // verus!
