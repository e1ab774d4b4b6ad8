//! Writing a payload at the front of a caller's buffer.

use crate::error::BgpError;
use vstd::prelude::*;

verus! {

/// What an encode leaves behind and returns, for a payload `wire`. With room
/// for the whole payload it stands at the front of the buffer, the rest of
/// the buffer is as it was, and the payload's length is returned. Without
/// room the buffer is untouched and the encode fails.
pub open spec fn encoded(
    wire: Seq<u8>,
    before: Seq<u8>,
    after: Seq<u8>,
    r: Result<usize, BgpError>,
) -> bool {
    if before.len() >= wire.len() {
        &&& r == Ok::<usize, BgpError>(wire.len() as usize)
        &&& after == wire + before.skip(wire.len() as int)
    } else {
        &&& r == Err::<usize, BgpError>(BgpError::BufferTooSmall)
        &&& after == before
    }
}

/// Copies `src` to the front of `buf` and returns its length. A buffer
/// shorter than `src` is left as it is.
pub fn put_bytes(src: &[u8], buf: &mut [u8]) -> (r: Result<usize, BgpError>)
    ensures
        encoded(src@, old(buf)@, final(buf)@, r),
{
    let n = src.len();
    if buf.len() < n {
        return Err(BgpError::BufferTooSmall);
    }
    let mut i: usize = 0;
    while i < n
        invariant
            i <= n,
            n == src@.len(),
            buf@.len() == old(buf)@.len(),
            n <= buf@.len(),
            forall|j: int| 0 <= j < i ==> buf@[j] == src@[j],
            forall|j: int| i <= j < buf@.len() ==> buf@[j] == old(buf)@[j],
        decreases n - i,
    {
        buf[i] = src[i];
        i += 1;
    }
    assert(buf@ =~= src@ + old(buf)@.skip(n as int));
    Ok(n)
}

} // verus!
