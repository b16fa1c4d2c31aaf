//! Per-connection session state for a multi-party media relay: lock-free
//! set-once identity cells and independent atomic flags, with a sequential
//! model of their linearised behaviour.
pub mod ids;
pub mod identity;
pub mod session;
pub mod model;

pub use identity::AtomicIdentity;
pub use ids::{IdToken, RoomId, UserId};
pub use session::SessionState;
