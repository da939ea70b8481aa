//! The offering side of a session.
pub mod client;
pub mod exchange;
pub mod offer;

pub use client::Connected;
pub use offer::Offer;
