//! The messages that cells gossip to each other.

use crate::identity::CellId;
use crate::metadata::{Metadata, Record};
use vstd::prelude::*;

verus! {

/// One piece of gossip about a cell.
pub enum GossipPayload {
    /// A cell joins; the message carries its full record.
    Join(Metadata),
    /// The named cell leaves.
    Leave(CellId),
    /// The named cell confirms that it is alive.
    Heartbeat(CellId),
}

/// A gossip message as a mathematical value.
pub ghost enum Gossip {
    Join(Record),
    Leave(CellId),
    Heartbeat(CellId),
}

impl View for GossipPayload {
    type V = Gossip;

    open spec fn view(&self) -> Gossip {
        match self {
            GossipPayload::Join(record) => Gossip::Join(record@),
            GossipPayload::Leave(id) => Gossip::Leave(*id),
            GossipPayload::Heartbeat(id) => Gossip::Heartbeat(*id),
        }
    }
}

impl Gossip {
    /// The cell that the message is about.
    pub open spec fn subject(self) -> CellId {
        match self {
            Gossip::Join(record) => record.id,
            Gossip::Leave(id) => id,
            Gossip::Heartbeat(id) => id,
        }
    }
}

impl GossipPayload {
    /// The cell that the message is about.
    pub fn subject(&self) -> (id: CellId)
        ensures
            id == self@.subject(),
    {
        match self {
            GossipPayload::Join(record) => record.id,
            GossipPayload::Leave(id) => *id,
            GossipPayload::Heartbeat(id) => *id,
        }
    }
}

} // verus!
