//! A connectionless chat relay: the server registers every peer it hears
//! from and rebroadcasts each message to all of them; the client keeps a
//! chat history and a "new message" flag that a foreground poll clears.
//!
//! Sockets, threads and the user interface live outside this library. The
//! library holds the decisions: which peers a message goes to, what text
//! goes out on the wire, what a received datagram does to the client's
//! state, and when the foreground must redraw.

pub mod address;
pub mod client;
pub mod registry;
pub mod relay;
pub mod text;
pub mod transport;

pub use address::PeerAddress;
pub use client::{ChatState, LoginRequest, Reception};
pub use registry::PeerRegistry;
pub use relay::{annotate, ingest, run, Broadcast, DecodeError, InboundMessage, Relay};
pub use text::{local_address, remote_address};
pub use transport::{ReceiveError, READ_TIMEOUT_MILLIS, RECEIVE_BUFFER_LEN};
