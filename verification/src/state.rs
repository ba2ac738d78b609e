//! The shared UI state: three independently written cells, read by the
//! rendering shell and written only by the action handlers on completion.

use vstd::prelude::*;

verus! {

/// The three observable cells: the last completed action's status text,
/// the last successfully fetched client datum, and the last successfully
/// encoded file.
pub struct UiState {
    pub status_msg: String,
    pub client_data: Option<i32>,
    pub file_encoded: String,
}

impl UiState {
    /// All three cells start empty at mount.
    pub fn new() -> (s: UiState)
        ensures
            s.status_msg@ == Seq::<char>::empty(),
            s.client_data is None,
            s.file_encoded@ == Seq::<char>::empty(),
    {
        UiState { status_msg: String::new(), client_data: None, file_encoded: String::new() }
    }
}

} // verus!
