//! The byte transport between host and display, as traits that a USB or
//! serial link implements.
use vstd::prelude::*;

verus! {

/// Failures of a transport.
#[derive(Debug, Clone, Copy, PartialEq, Eq, Structural)]
pub enum TransportError {
    WouldBlock,
    Disconnected,
    BufferTooSmall,
    WriteFailed,
    ReadFailed,
}

/// The sending half of a transport.
pub trait HueTx {
    type Error;

    /// Sends all of `bytes`.
    fn send(&mut self, bytes: &[u8]) -> Result<(), Self::Error>;
}

/// The receiving half of a transport.
pub trait HueRx {
    type Error;

    /// Reads into `out` and returns the number of bytes read.
    fn recv(&mut self, out: &mut [u8]) -> Result<usize, Self::Error>;
}

/// A transport that both sends and receives.
pub trait HueTransport: HueRx + HueTx {

}

impl<T: HueTx + HueRx> HueTransport for T {

}

} // verus!
