//! Blobfish: a small peer-to-peer file transfer protocol.
//!
//! The library holds the wire framing, the protocol messages, the typed
//! session state machines of both sides, the piece bookkeeping of the
//! receiving side and the deduplication cache. Sockets, files and the
//! payload encoding are driven by the caller.

pub mod client;
pub mod client_args;
pub mod error;
pub mod framing;
pub mod protocol;
pub mod server;
pub mod string_set;

pub use server::server::Server;
