//! The accepting side of a session.
pub mod exchange;
pub mod offer;
pub mod server;

pub use offer::Offer;
