//! The decisions of loading and saving the board: what a missing state file
//! gives, and the optimistic-concurrency check on the revision counter.

use vstd::prelude::*;

use crate::error::BoardError;
use crate::state::{is_default_layout, BoardState};

verus! {

/// The revision a save produces from the revision the board was loaded at
/// and the revision found in storage: none when they differ (another writer
/// advanced the stored board), otherwise one more than the loaded revision,
/// held at `u64::MAX`.
pub open spec fn saved_revision(loaded: u64, on_disk: u64) -> Option<u64> {
    if on_disk != loaded {
        None
    } else if loaded == u64::MAX {
        Some(loaded)
    } else {
        Some((loaded + 1) as u64)
    }
}

/// The board a load yields: the stored one, or a new default board when no
/// state file exists yet.
pub fn load(stored: Option<BoardState>) -> (r: BoardState)
    ensures
        match stored {
            Some(b) => r == b,
            None => r.revision == 0 && r.cards@.len() == 0 && is_default_layout(r.columns@),
        },
{
    match stored {
        Some(b) => b,
        None => BoardState::default(),
    }
}

/// The revision check and advance of a save. `on_disk_revision` is the
/// revision stored now (0 when nothing is stored). When it differs from
/// `state.revision` the save is refused as a concurrent modification and
/// `state` is left alone; otherwise the revision advances by one (held at
/// `u64::MAX`) and the new revision is returned, to be written with the board.
pub fn save(state: &mut BoardState, on_disk_revision: u64) -> (r: Result<u64, BoardError>)
    ensures
        match saved_revision(old(state).revision, on_disk_revision) {
            None => {
                &&& r matches Err(BoardError::ConcurrentModification { on_disk, loaded })
                    && on_disk == on_disk_revision && loaded == old(state).revision
                &&& *final(state) == *old(state)
            },
            Some(n) => {
                &&& r == Ok::<u64, BoardError>(n)
                &&& final(state).revision == n
                &&& final(state).cards == old(state).cards
                &&& final(state).columns == old(state).columns
            },
        },
{
    if on_disk_revision != state.revision {
        return Err(BoardError::ConcurrentModification { on_disk: on_disk_revision, loaded: state.revision });
    }
    state.revision = state.revision.saturating_add(1);
    Ok(state.revision)
}

} // verus!
