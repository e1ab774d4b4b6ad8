//! What a codec is told about the session a message belongs to.

use vstd::prelude::*;

verus! {

/// The address family that the session's transport runs over.
#[derive(Debug, Clone, Copy, PartialEq, Eq, Structural)]
pub enum BgpTransportMode {
    /// The peers talk over IPv4.
    IPv4,
    /// The peers talk over IPv6.
    IPv6,
}

/// Parameters of an established session, handed read-only to every
/// attribute codec. A codec that needs none of them ignores the value.
#[derive(Debug, Clone, Copy, PartialEq, Eq, Structural)]
pub struct BgpSessionParams {
    /// Autonomous system number of the local side.
    pub as_num: u32,
    /// Hold time in seconds.
    pub hold_time: u16,
    /// Address family of the transport.
    pub peer_mode: BgpTransportMode,
    /// Whether both sides speak four-byte AS numbers.
    pub has_as32bit: bool,
}

impl BgpSessionParams {
    /// Parameters of a session with the given AS number, hold time and
    /// transport; four-byte AS numbers are taken as agreed.
    pub fn new(as_num: u32, hold_time: u16, peer_mode: BgpTransportMode) -> (p: BgpSessionParams)
        ensures
            p == (BgpSessionParams { as_num, hold_time, peer_mode, has_as32bit: true }),
    {
        BgpSessionParams { as_num, hold_time, peer_mode, has_as32bit: true }
    }
}

} // verus!
