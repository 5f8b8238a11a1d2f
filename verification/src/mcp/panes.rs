//! Choice of the pane that an agent's request addresses.

use vstd::prelude::*;

verus! {

/// What the choice reads of a pane in a pane list: its id, where the entry
/// has a numeric one, and whether it is marked active.
#[derive(Debug, Clone, Copy, PartialEq, Eq, Structural)]
pub struct PaneSummary {
    pub pane_id: Option<u64>,
    pub is_active: bool,
}

/// Why no pane could be chosen.
#[derive(Debug, Clone, Copy, PartialEq, Eq, Structural)]
pub enum PaneLookupError {
    /// No pane has the requested id (an invalid-params error: `pane {id}
    /// not found`).
    NotFound(u64),
    /// The list is empty (an internal error: `no panes available`).
    NoPanes,
}

/// The index of the first pane with the given id.
pub open spec fn first_with_id(panes: Seq<PaneSummary>, id: u64, i: int) -> bool {
    &&& 0 <= i < panes.len()
    &&& panes[i].pane_id == Some(id)
    &&& forall|j: int| 0 <= j < i ==> panes[j].pane_id != Some(id)
}

/// The index of the first active pane.
pub open spec fn first_active(panes: Seq<PaneSummary>, i: int) -> bool {
    &&& 0 <= i < panes.len()
    &&& panes[i].is_active
    &&& forall|j: int| 0 <= j < i ==> !panes[j].is_active
}

/// Choose a pane: the first with the requested id; without one, the first
/// active pane, else the first pane of the list.
pub fn select_pane(panes: &Vec<PaneSummary>, pane_id: Option<u64>) -> (r: Result<usize, PaneLookupError>)
    ensures
        match pane_id {
            Some(id) => match r {
                Ok(i) => first_with_id(panes@, id, i as int),
                Err(e) => e == PaneLookupError::NotFound(id) && forall|j: int|
                    0 <= j < panes@.len() ==> panes@[j].pane_id != Some(id),
            },
            None => match r {
                Ok(i) => first_active(panes@, i as int) || (i == 0 && panes@.len() > 0 && forall|j: int|
                    0 <= j < panes@.len() ==> !panes@[j].is_active),
                Err(e) => e == PaneLookupError::NoPanes && panes@.len() == 0,
            },
        },
{
    let mut i: usize = 0;
    match pane_id {
        Some(id) => {
            while i < panes.len()
                invariant
                    pane_id == Some(id),
                    i <= panes@.len(),
                    forall|j: int| 0 <= j < i ==> panes@[j].pane_id != Some(id),
                decreases panes@.len() - i,
            {
                if panes[i].pane_id == Some(id) {
                    return Ok(i);
                }
                i += 1;
            }
            Err(PaneLookupError::NotFound(id))
        },
        None => {
            while i < panes.len()
                invariant
                    pane_id is None,
                    i <= panes@.len(),
                    forall|j: int| 0 <= j < i ==> !panes@[j].is_active,
                decreases panes@.len() - i,
            {
                if panes[i].is_active {
                    return Ok(i);
                }
                i += 1;
            }
            if panes.len() > 0 {
                Ok(0)
            } else {
                Err(PaneLookupError::NoPanes)
            }
        },
    }
}

} // verus!
