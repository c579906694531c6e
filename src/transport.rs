use vstd::prelude::*;

verus! {

/// The size of the buffer a datagram is received into; longer datagrams
/// are cut to this length.
pub const RECEIVE_BUFFER_LEN: usize = 4096;

/// How long, in milliseconds, a receive waits before it gives up.
pub const READ_TIMEOUT_MILLIS: u64 = 2000;

/// Why a receive returned no datagram. Both are transient: the caller
/// receives again.
#[derive(Clone, Copy, Debug, PartialEq, Eq, Structural)]
pub enum ReceiveError {
    /// Nothing arrived within the read timeout.
    TimedOut,
    /// The endpoint reported some other failure.
    Io,
}

} // verus!
