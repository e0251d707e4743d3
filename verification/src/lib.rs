//! A control bridge for a networked television: it drives the pairing
//! handshake over the television's remote-control protocol, keeps exactly one
//! authorization token active in a credential store, and relays externally
//! submitted launch commands onto the open connection.
//!
//! The crate verifies the bridge's logic: the store invariant, the session
//! state machine, the single-slot command relay, and the construction and
//! classification of protocol frames. The surrounding I/O (socket, HTTP
//! intake, persistence engine) lives outside the library.

pub mod codec;
pub mod relay;
pub mod session;
pub mod store;
