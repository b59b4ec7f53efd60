//! Arguments of the `measurement report` commands that need no outside type.
use vstd::prelude::*;

verus! {

/// Shows all reports of a machine.
pub struct ShowForMachine {
    pub machine_id: String,
}

/// Lists all reports.
pub struct ListAll {}

} // verus!
