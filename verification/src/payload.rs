//! What travels through a data-plane program, and the two ends it travels
//! between.

use vstd::prelude::*;

verus! {

/// A packet whose bytes can be read and written.
pub trait Payload: Copy {
    fn payload(&self) -> &[u8];

    fn payload_mut(&mut self) -> &mut [u8];
}

/// Where packets come from.
pub trait SocketRx: Send + 'static {
    type Packet: Payload;

    /// The packets that have arrived since the last call.
    fn read_iter(&mut self) -> Vec<Self::Packet>;
}

/// Where packets go.
pub trait SocketTx: Send + 'static {
    type Packet: Payload;

    /// Sends `packets`.
    fn write_iter(&mut self, packets: Vec<Self::Packet>);
}

} // verus!
