//! Internet addresses as the bytes they put on the wire, and the codec
//! that tells the two families apart by length alone.

use crate::error::BgpError;
use crate::order::{addr_before, addr_lt, bytes_eq};
use crate::text::{addr_text, push_ipv4_text, push_ipv6_text};
use crate::wire::{encoded, put_bytes};
use std::cmp::Ordering;
use vstd::prelude::*;

verus! {

/// Number of bytes of an IPv4 address.
pub const IPV4_LEN: usize = 4;

/// Number of bytes of an IPv6 address.
pub const IPV6_LEN: usize = 16;

/// An address of either family, held in network byte order.
#[derive(Debug, Clone, Copy, Eq, Ord, Hash)]
pub enum IpAddr {
    /// An IPv4 address: four bytes.
    V4([u8; 4]),
    /// An IPv6 address: sixteen bytes.
    V6([u8; 16]),
}

impl View for IpAddr {
    type V = Seq<u8>;

    /// The bytes of the address, first byte first.
    open spec fn view(&self) -> Seq<u8> {
        match self {
            IpAddr::V4(o) => o@,
            IpAddr::V6(o) => o@,
        }
    }
}

impl IpAddr {
    /// The bytes of the address, first byte first.
    pub fn octets(&self) -> (r: &[u8])
        ensures
            r@ == self@,
    {
        match self {
            IpAddr::V4(o) => o.as_slice(),
            IpAddr::V6(o) => o.as_slice(),
        }
    }

    /// Number of bytes of the address: 4 or 16.
    pub fn width(&self) -> (n: usize)
        ensures
            n == self@.len(),
            n == IPV4_LEN || n == IPV6_LEN,
    {
        match self {
            IpAddr::V4(_) => IPV4_LEN,
            IpAddr::V6(_) => IPV6_LEN,
        }
    }

    /// The address as text: an IPv4 address in dotted decimal, an IPv6
    /// address in hexadecimal groups with the widest run of zero groups
    /// left out.
    pub fn to_string(&self) -> (r: String)
        ensures
            r@ == addr_text(self@),
    {
        let mut r = String::new();
        match self {
            IpAddr::V4(o) => push_ipv4_text(&mut r, o.as_slice()),
            IpAddr::V6(o) => push_ipv6_text(&mut r, o),
        }
        r
    }

    /// An address holds 4 bytes or 16, by its family.
    pub proof fn lemma_view_len(self)
        ensures
            self is V4 <==> self@.len() == 4,
            self is V6 <==> self@.len() == 16,
    {
    }

    /// Two addresses with the same bytes are the same address.
    pub proof fn lemma_view_injective(self, other: IpAddr)
        requires
            self@ == other@,
        ensures
            self == other,
    {
        match (self, other) {
            (IpAddr::V4(a), IpAddr::V4(b)) => {
                assert(a =~= b);
            },
            (IpAddr::V6(a), IpAddr::V6(b)) => {
                assert(a =~= b);
            },
            _ => {
                self.lemma_view_len();
                other.lemma_view_len();
            },
        }
    }
}

/// How the address with bytes `a` stands to the one with bytes `b`.
pub open spec fn addr_ordering(a: Seq<u8>, b: Seq<u8>) -> Ordering {
    if a == b {
        Ordering::Equal
    } else if addr_lt(a, b) {
        Ordering::Less
    } else {
        Ordering::Greater
    }
}

impl PartialEq for IpAddr {
    fn eq(&self, other: &IpAddr) -> (r: bool) {
        bytes_eq(self.octets(), other.octets())
    }
}

impl vstd::std_specs::cmp::PartialEqSpecImpl for IpAddr {
    open spec fn obeys_eq_spec() -> bool {
        true
    }

    open spec fn eq_spec(&self, other: &IpAddr) -> bool {
        self@ == other@
    }
}

impl PartialOrd for IpAddr {
    fn partial_cmp(&self, other: &IpAddr) -> (r: Option<Ordering>) {
        let a = self.octets();
        let b = other.octets();
        if bytes_eq(a, b) {
            Some(Ordering::Equal)
        } else if addr_before(a, b) {
            Some(Ordering::Less)
        } else {
            Some(Ordering::Greater)
        }
    }
}

impl vstd::std_specs::cmp::PartialOrdSpecImpl for IpAddr {
    open spec fn obeys_partial_cmp_spec() -> bool {
        true
    }

    open spec fn partial_cmp_spec(&self, other: &IpAddr) -> Option<Ordering> {
        Some(addr_ordering(self@, other@))
    }
}

/// What a payload decodes to: the address that holds exactly these bytes, or
/// the length that no address has.
pub open spec fn decoded_addr(bytes: Seq<u8>, r: Result<IpAddr, BgpError>) -> bool {
    if bytes.len() == 4 || bytes.len() == 16 {
        r is Ok && r->Ok_0@ == bytes
    } else {
        r == Err::<IpAddr, BgpError>(BgpError::InvalidLength(bytes.len() as usize))
    }
}

/// Reads an address from a payload that holds nothing else. The family
/// follows from the length: 4 bytes are an IPv4 address, 16 an IPv6 one, and
/// any other length is refused with that length.
pub fn decode_addr_from(buf: &[u8]) -> (r: Result<IpAddr, BgpError>)
    ensures
        decoded_addr(buf@, r),
{
    let n = buf.len();
    if n == IPV4_LEN {
        let o: [u8; 4] = [buf[0], buf[1], buf[2], buf[3]];
        assert(o@ =~= buf@);
        Ok(IpAddr::V4(o))
    } else if n == IPV6_LEN {
        let mut o: [u8; 16] = [0u8; 16];
        let mut i: usize = 0;
        while i < IPV6_LEN
            invariant
                i <= 16,
                buf@.len() == 16,
                forall|j: int| 0 <= j < i ==> o@[j] == buf@[j],
            decreases 16 - i,
        {
            o[i] = buf[i];
            i += 1;
        }
        assert(o@ =~= buf@);
        Ok(IpAddr::V6(o))
    } else {
        Err(BgpError::InvalidLength(n))
    }
}

/// Writes the bytes of `addr` at the front of `buf` and returns how many
/// were written: 4 or 16, by the family. A buffer shorter than the address
/// is left as it is.
pub fn encode_addr_to(addr: &IpAddr, buf: &mut [u8]) -> (r: Result<usize, BgpError>)
    ensures
        encoded(addr@, old(buf)@, final(buf)@, r),
{
    put_bytes(addr.octets(), buf)
}

} // verus!
