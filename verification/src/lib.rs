//! Membership reconciliation for a gossip cluster: identities, version
//! clocks, per-cell metadata, and the store that absorbs gossip messages.

pub mod clock;
pub mod endpoint;
pub mod identity;
pub mod laws;
pub mod message;
pub mod metadata;
pub mod status;
pub mod store;
pub mod text;
pub mod time;

pub use clock::{ClockOrder, VersionClock};
pub use endpoint::Endpoint;
pub use identity::CellId;
pub use message::GossipPayload;
pub use metadata::Metadata;
pub use status::Status;
pub use store::CellStore;
