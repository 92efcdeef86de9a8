use vstd::prelude::*;

verus! {

/// The cores of the machine that threads can be pinned to, as the machine
/// reported them; `None` when it could not tell. Only `of_machine` makes
/// one, so a `ReportedCores` holds what the machine reported.
pub struct ReportedCores {
    cores: Option<Vec<usize>>,
}

impl ReportedCores {
    /// The reported cores.
    pub closed spec fn cores(&self) -> Option<Vec<usize>> {
        self.cores
    }

    /// Asks the machine for its cores.
    pub fn of_machine() -> Self {
        ReportedCores { cores: available_core_ids() }
    }

    /// The reported cores.
    pub fn list(&self) -> (cores: &Option<Vec<usize>>)
        ensures
            *cores == self.cores(),
    {
        &self.cores
    }
}

/// Calls `core_affinity::get_core_ids`, which lists the cores of the machine
/// that the process may run on, or gives `None` when it cannot tell; the
/// list is mapped to the cores' numbers. What it holds depends on the
/// machine, so nothing is claimed of it.
#[verifier::external_body]
fn available_core_ids() -> Option<Vec<usize>> {
    core_affinity::get_core_ids().map(|ids| ids.into_iter().map(|core| core.id).collect())
}

} // verus!
