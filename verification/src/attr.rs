//! The contract that every path attribute meets: what identifies it on the
//! wire, and how it is written there.

use crate::error::BgpError;
use crate::session::BgpSessionParams;
use vstd::prelude::*;

verus! {

/// Flag bit: the attribute is optional, not well-known.
pub const FLAG_OPTIONAL: u8 = 0x80;

/// Flag bit: the attribute is transitive.
pub const FLAG_TRANSITIVE: u8 = 0x40;

/// Flag bit: the attribute is partial.
pub const FLAG_PARTIAL: u8 = 0x20;

/// Flag bit: the attribute's length field takes two bytes.
pub const FLAG_EXTENDED_LENGTH: u8 = 0x10;

/// What identifies a kind of attribute on the wire: its type code and its
/// flag byte. Both belong to the kind, not to any one value of it.
#[derive(Debug, Clone, Copy, PartialEq, Eq, Structural)]
pub struct BgpAttrParams {
    /// The attribute's type code.
    pub typecode: u8,
    /// The attribute's flag byte.
    pub flags: u8,
}

impl BgpAttrParams {
    /// Whether the optional bit is set; a well-known attribute has it clear.
    pub open spec fn spec_is_optional(&self) -> bool {
        self.flags & FLAG_OPTIONAL != 0
    }

    /// Whether the transitive bit is set.
    pub open spec fn spec_is_transitive(&self) -> bool {
        self.flags & FLAG_TRANSITIVE != 0
    }

    /// Whether the partial bit is set.
    pub open spec fn spec_is_partial(&self) -> bool {
        self.flags & FLAG_PARTIAL != 0
    }

    /// Whether the extended-length bit is set.
    pub open spec fn spec_is_extended_length(&self) -> bool {
        self.flags & FLAG_EXTENDED_LENGTH != 0
    }

    /// Whether the optional bit is set; a well-known attribute has it clear.
    #[verifier::when_used_as_spec(spec_is_optional)]
    pub fn is_optional(&self) -> (b: bool)
        ensures
            b == self.spec_is_optional(),
    {
        self.flags & FLAG_OPTIONAL != 0
    }

    /// Whether the transitive bit is set.
    #[verifier::when_used_as_spec(spec_is_transitive)]
    pub fn is_transitive(&self) -> (b: bool)
        ensures
            b == self.spec_is_transitive(),
    {
        self.flags & FLAG_TRANSITIVE != 0
    }

    /// Whether the partial bit is set.
    #[verifier::when_used_as_spec(spec_is_partial)]
    pub fn is_partial(&self) -> (b: bool)
        ensures
            b == self.spec_is_partial(),
    {
        self.flags & FLAG_PARTIAL != 0
    }

    /// Whether the extended-length bit is set.
    #[verifier::when_used_as_spec(spec_is_extended_length)]
    pub fn is_extended_length(&self) -> (b: bool)
        ensures
            b == self.spec_is_extended_length(),
    {
        self.flags & FLAG_EXTENDED_LENGTH != 0
    }
}

/// What every attribute's encode keeps to, for a payload `wire`. On success
/// the payload stands at the front of the buffer, the rest of the buffer is
/// as it was, and the payload's length is returned. On failure the buffer is
/// untouched.
pub open spec fn encoded_or_untouched(
    wire: Seq<u8>,
    before: Seq<u8>,
    after: Seq<u8>,
    r: Result<usize, BgpError>,
) -> bool {
    match r {
        Ok(n) => {
            &&& n == wire.len()
            &&& n <= before.len()
            &&& after == wire + before.skip(n as int)
        },
        Err(_) => after == before,
    }
}

/// A path attribute: a value that knows its place in an UPDATE message.
pub trait BgpAttr: Sized {
    /// The type code and flags of this kind of attribute.
    spec fn params() -> BgpAttrParams;

    /// The payload that this value puts on the wire in a session with the
    /// parameters `peer`.
    spec fn wire(&self, peer: &BgpSessionParams) -> Seq<u8>;

    /// The type code and flags of the attribute. They are the same for every
    /// value of one kind.
    fn attr(&self) -> (p: BgpAttrParams)
        ensures
            p == Self::params(),
    ;

    /// Writes the payload at the front of `buf` and returns its length. A
    /// failed encode leaves the buffer as it is.
    fn encode_to(&self, peer: &BgpSessionParams, buf: &mut [u8]) -> (r: Result<usize, BgpError>)
        ensures
            encoded_or_untouched(self.wire(peer), old(buf)@, final(buf)@, r),
    ;
}

} // verus!
