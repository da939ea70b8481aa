//! States of the offering side's connection.
use vstd::prelude::*;

pub use crate::framing::ReadResult;

verus! {

/// A state of the offering side's connection.
pub trait ClientState {}

/// The stream to the acceptor is open.
pub struct Connected;

/// No stream is open yet.
pub struct Disconnected;

impl ClientState for Connected {}

impl ClientState for Disconnected {}

} // verus!
