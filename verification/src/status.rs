//! The status of a cell as seen by its peers.

use vstd::prelude::*;

verus! {

/// Where a cell stands in its life: joining, participating, suspected, or departed.
#[derive(Clone, Copy, Debug, PartialEq, Eq, Hash, Structural)]
pub enum Status {
    /// Confirmed reachable and fully participating.
    Active,
    /// Suspected unreachable; may come back.
    Inactive,
    /// Joining, not yet confirmed reachable.
    Pending,
    /// Departed or expelled; never comes back.
    Gone,
}

impl Status {
    /// The lower-case name of a status.
    pub open spec fn label_spec(self) -> Seq<char> {
        match self {
            Status::Active => "active"@,
            Status::Inactive => "inactive"@,
            Status::Pending => "pending"@,
            Status::Gone => "gone"@,
        }
    }

    /// A cell takes part in the cluster while it is active or joining.
    pub open spec fn participates(self) -> bool {
        self == Status::Active || self == Status::Pending
    }

    /// `Gone` is the only status that nothing can follow.
    pub open spec fn is_terminal(self) -> bool {
        self == Status::Gone
    }

    /// The name of the status, as it is shown to people.
    pub fn label(&self) -> (text: String)
        ensures
            text@ == self.label_spec(),
    {
        match self {
            Status::Active => "active".to_owned(),
            Status::Inactive => "inactive".to_owned(),
            Status::Pending => "pending".to_owned(),
            Status::Gone => "gone".to_owned(),
        }
    }
}

} // verus!
