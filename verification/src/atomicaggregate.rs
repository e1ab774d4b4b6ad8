//! The "Atomic aggregate" path attribute.
//!
//! Its presence tells that a route was aggregated and that part of the path
//! was lost on the way. The payload is an address, or nothing at all.

use crate::addr::{addr_ordering, decode_addr_from, encode_addr_to, IpAddr};
use crate::attr::{BgpAttr, BgpAttrParams};
use crate::error::BgpError;
use crate::order::{
    addr_lt, lemma_addr_lt_asymmetric, lemma_addr_lt_irreflexive, lemma_addr_lt_total,
    lemma_addr_lt_transitive,
};
use crate::session::BgpSessionParams;
use crate::text::addr_text;
use crate::wire::encoded;
use std::cmp::Ordering;
use vstd::prelude::*;
use vstd::std_specs::cmp::{PartialEqSpec, PartialOrdSpec};

verus! {

/// Type code of the attribute.
pub const ATOMIC_AGGREGATE_TYPECODE: u8 = 6;

/// Flag byte of the attribute: well-known and transitive.
pub const ATOMIC_AGGREGATE_FLAGS: u8 = 64;

/// The "Atomic aggregate" path attribute.
#[derive(Debug, Clone, Copy, Eq, Ord, Hash)]
pub struct BgpAtomicAggregate {
    /// The address that came with the attribute.
    pub value: IpAddr,
}

/// What a payload decodes to. An empty payload gives the IPv4 address of
/// four zero bytes; a payload of 4 or 16 bytes gives the address that holds
/// exactly these bytes; any other length is refused with that length.
pub open spec fn decoded(bytes: Seq<u8>, r: Result<BgpAtomicAggregate, BgpError>) -> bool {
    if bytes.len() == 0 {
        r is Ok && r->Ok_0.value@ == seq![0u8, 0u8, 0u8, 0u8]
    } else if bytes.len() == 4 || bytes.len() == 16 {
        r is Ok && r->Ok_0.value@ == bytes
    } else {
        r == Err::<BgpAtomicAggregate, BgpError>(BgpError::InvalidLength(bytes.len() as usize))
    }
}

/// What the text of every value of the attribute starts with: the type's
/// name and a blank.
pub open spec fn text_prefix() -> Seq<char> {
    "BgpAtomicAggregate "@
}

impl BgpAtomicAggregate {
    /// Reads the attribute from its payload. Senders that put no address
    /// into the attribute are understood as sending `0.0.0.0`.
    pub fn decode_from(_peer: &BgpSessionParams, buf: &[u8]) -> (r: Result<
        BgpAtomicAggregate,
        BgpError,
    >)
        ensures
            decoded(buf@, r),
    {
        if buf.len() == 0 {
            let zero: [u8; 4] = [0, 0, 0, 0];
            Ok(BgpAtomicAggregate { value: IpAddr::V4(zero) })
        } else {
            match decode_addr_from(buf) {
                Ok(value) => Ok(BgpAtomicAggregate { value }),
                Err(e) => Err(e),
            }
        }
    }

    /// The attribute as text for logs: the type's name, a blank, and the
    /// address as text.
    pub fn to_string(&self) -> (r: String)
        ensures
            r@ == text_prefix() + addr_text(self.value@),
    {
        let r = String::from_str("BgpAtomicAggregate ");
        let addr = self.value.to_string();
        r.concat(addr.as_str())
    }
}

impl BgpAttr for BgpAtomicAggregate {
    open spec fn params() -> BgpAttrParams {
        BgpAttrParams { typecode: ATOMIC_AGGREGATE_TYPECODE, flags: ATOMIC_AGGREGATE_FLAGS }
    }

    /// The payload is the address, whatever the session.
    open spec fn wire(&self, peer: &BgpSessionParams) -> Seq<u8> {
        self.value@
    }

    /// Type code 6 and flags 64, whatever the value.
    fn attr(&self) -> (p: BgpAttrParams)
        ensures
            p.typecode == 6,
            p.flags == 64,
    {
        BgpAttrParams { typecode: ATOMIC_AGGREGATE_TYPECODE, flags: ATOMIC_AGGREGATE_FLAGS }
    }

    /// Writes the address at the front of `buf` and returns its width, 4 or
    /// 16. The encode fails exactly when the buffer is shorter than the
    /// address, and then leaves the buffer as it is.
    fn encode_to(&self, _peer: &BgpSessionParams, buf: &mut [u8]) -> (r: Result<usize, BgpError>)
        ensures
            encoded(self.value@, old(buf)@, final(buf)@, r),
    {
        encode_addr_to(&self.value, buf)
    }
}

impl PartialEq for BgpAtomicAggregate {
    fn eq(&self, other: &BgpAtomicAggregate) -> (r: bool) {
        self.value == other.value
    }
}

impl vstd::std_specs::cmp::PartialEqSpecImpl for BgpAtomicAggregate {
    open spec fn obeys_eq_spec() -> bool {
        true
    }

    open spec fn eq_spec(&self, other: &BgpAtomicAggregate) -> bool {
        self.value@ == other.value@
    }
}

impl PartialOrd for BgpAtomicAggregate {
    fn partial_cmp(&self, other: &BgpAtomicAggregate) -> (r: Option<Ordering>) {
        self.value.partial_cmp(&other.value)
    }
}

impl vstd::std_specs::cmp::PartialOrdSpecImpl for BgpAtomicAggregate {
    open spec fn obeys_partial_cmp_spec() -> bool {
        true
    }

    open spec fn partial_cmp_spec(&self, other: &BgpAtomicAggregate) -> Option<Ordering> {
        Some(addr_ordering(self.value@, other.value@))
    }
}

impl BgpAtomicAggregate {
    /// Whether this attribute stands strictly before `other`: an IPv4
    /// address before every IPv6 address, and within one family the address
    /// whose bytes come first in dictionary order.
    pub open spec fn before(self, other: BgpAtomicAggregate) -> bool {
        addr_lt(self.value@, other.value@)
    }

    /// Two attributes are the same value exactly when their addresses hold
    /// the same bytes, which is what `==` tests.
    pub proof fn lemma_eq_is_identity(self, other: BgpAtomicAggregate)
        ensures
            self.eq_spec(&other) <==> self == other,
    {
        if self.value@ == other.value@ {
            self.value.lemma_view_injective(other.value);
        }
    }

    /// The comparison operators follow `before`: less means before, greater
    /// means that the other is before, and equal means the same value.
    pub proof fn lemma_ordering_follows_before(self, other: BgpAtomicAggregate)
        ensures
            self.partial_cmp_spec(&other) == Some(Ordering::Less) <==> self.before(other),
            self.partial_cmp_spec(&other) == Some(Ordering::Greater) <==> other.before(self),
            self.partial_cmp_spec(&other) == Some(Ordering::Equal) <==> self == other,
    {
        self.lemma_eq_is_identity(other);
        lemma_addr_lt_irreflexive(self.value@);
        if self.value@ != other.value@ {
            lemma_addr_lt_total(self.value@, other.value@);
        }
        if self.before(other) {
            lemma_addr_lt_asymmetric(self.value@, other.value@);
        }
    }

    /// The attributes are strictly and totally ordered: none stands before
    /// itself, standing before carries over from one pair to the next, and
    /// of two different attributes exactly one stands before the other.
    pub proof fn lemma_order_strict_total(
        x: BgpAtomicAggregate,
        y: BgpAtomicAggregate,
        z: BgpAtomicAggregate,
    )
        ensures
            !x.before(x),
            x.before(y) && y.before(z) ==> x.before(z),
            x.before(y) ==> !y.before(x),
            x != y ==> x.before(y) || y.before(x),
    {
        lemma_addr_lt_irreflexive(x.value@);
        if x.before(y) {
            lemma_addr_lt_asymmetric(x.value@, y.value@);
            if y.before(z) {
                lemma_addr_lt_transitive(x.value@, y.value@, z.value@);
            }
        }
        if x != y {
            x.lemma_eq_is_identity(y);
            lemma_addr_lt_total(x.value@, y.value@);
        }
    }

    /// Every IPv4 attribute stands before every IPv6 attribute.
    pub proof fn lemma_v4_before_v6(x: BgpAtomicAggregate, y: BgpAtomicAggregate)
        requires
            x.value is V4,
            y.value is V6,
        ensures
            x.before(y),
    {
        x.value.lemma_view_len();
        y.value.lemma_view_len();
    }

    /// What was encoded decodes to the same attribute. With room for the
    /// address the encode writes `n` bytes, and the first `n` bytes of the
    /// buffer decode to the attribute that was encoded; with a buffer of
    /// exactly the address's width that is the whole buffer.
    pub proof fn lemma_encode_decode_round_trip(
        self,
        before: Seq<u8>,
        after: Seq<u8>,
        written: Result<usize, BgpError>,
        back: Result<BgpAtomicAggregate, BgpError>,
    )
        requires
            before.len() >= self.value@.len(),
            encoded(self.value@, before, after, written),
            decoded(after.take(self.value@.len() as int), back),
        ensures
            written == Ok::<usize, BgpError>(self.value@.len() as usize),
            back == Ok::<BgpAtomicAggregate, BgpError>(self),
            before.len() == self.value@.len() ==> after.take(self.value@.len() as int) == after,
    {
        self.value.lemma_view_len();
        let n = self.value@.len() as int;
        assert(after.take(n) =~= self.value@);
        back->Ok_0.value.lemma_view_injective(self.value);
    }

    /// What was decoded encodes to the same bytes. A payload of 4 or 16
    /// bytes decodes to an attribute whose encode, given room, writes exactly
    /// these bytes. (An empty payload decodes too, but to `0.0.0.0`, whose
    /// encode writes four zero bytes.)
    pub proof fn lemma_decode_encode_round_trip(
        bytes: Seq<u8>,
        got: Result<BgpAtomicAggregate, BgpError>,
        before: Seq<u8>,
        after: Seq<u8>,
        written: Result<usize, BgpError>,
    )
        requires
            bytes.len() == 4 || bytes.len() == 16,
            decoded(bytes, got),
            before.len() >= bytes.len(),
            got is Ok ==> encoded(got->Ok_0.value@, before, after, written),
        ensures
            got is Ok,
            written == Ok::<usize, BgpError>(bytes.len() as usize),
            after.take(bytes.len() as int) == bytes,
    {
        assert(after.take(bytes.len() as int) =~= bytes);
    }

    /// The flags of the attribute say that it is well-known and transitive,
    /// neither partial nor with an extended length.
    pub proof fn lemma_flags_well_known_transitive()
        ensures
            !Self::params().is_optional(),
            Self::params().is_transitive(),
            !Self::params().is_partial(),
            !Self::params().is_extended_length(),
    {
        assert(64u8 & 0x80u8 == 0u8) by (bit_vector);
        assert(64u8 & 0x40u8 != 0u8) by (bit_vector);
        assert(64u8 & 0x20u8 == 0u8) by (bit_vector);
        assert(64u8 & 0x10u8 == 0u8) by (bit_vector);
    }
}

} // verus!
