//! Telling whether a scene arrives compressed, and how large it will be.
use vstd::prelude::*;

verus! {

/// The largest size that a trailer is believed to state, in bytes. A corrupt
/// length must not ask for a gigabyte before the first byte is read.
pub const CEILING: usize = 0x1400_0000;

/// Whether some bytes are compressed, going by the first two and not by a file's
/// name. Some hosts serve a compressed file in a way that makes the browser
/// inflate it, and trying again would fail on plain scene data.
#[must_use]
pub fn is_gzip(bytes: &[u8]) -> (r: bool)
    ensures
        r == (bytes@.len() >= 2 && bytes@[0] == 0x1f && bytes@[1] == 0x8b),
{
    bytes.len() >= 2 && bytes[0] == 0x1f && bytes[1] == 0x8b
}

/// The number that the last four bytes hold, the least significant first.
pub open spec fn trailer(bytes: Seq<u8>) -> int {
    let end = bytes.len() as int;
    bytes[end - 4] + 0x100 * bytes[end - 3] + 0x1_0000 * bytes[end - 2] + 0x100_0000 * bytes[end - 1]
}

/// How large the inflated scene will be: a compressed stream ends with the
/// length that it inflates to.
///
/// A wrong trailer costs only a bad guess: the size is a hint, and whatever
/// actually arrives is kept.
#[must_use]
pub fn inflated_size(gzip: &[u8]) -> (r: usize)
    ensures
        r == if gzip@.len() < 4 {
            0
        } else if trailer(gzip@) > CEILING {
            CEILING as int
        } else {
            trailer(gzip@)
        },
        r <= 0x1400_0000,
        gzip@.len() >= 4 && r < 0x1400_0000 ==> {
            let end = gzip@.len();
            &&& r % 256 == gzip@[end - 4]
            &&& r / 256 % 256 == gzip@[end - 3]
            &&& r / 65536 % 256 == gzip@[end - 2]
            &&& r / 16777216 == gzip@[end - 1]
        },
        gzip@.len() >= 4 && gzip@[gzip@.len() - 1] >= 0x14 ==> r == 0x1400_0000,
{
    let end: usize = gzip.len();
    if end < 4 {
        return 0;
    }
    let size: u64 = gzip[end - 4] as u64 + 0x100 * gzip[end - 3] as u64 + 0x1_0000 * gzip[end - 2] as u64
        + 0x100_0000 * gzip[end - 1] as u64;
    if size > CEILING as u64 {
        CEILING
    } else {
        size as usize
    }
}

/// The bytes of a trailer are the digits of the size that it states, in base
/// 256 and least significant first.
pub proof fn law_the_trailer_states_a_size(bytes: Seq<u8>)
    requires
        bytes.len() >= 4,
    ensures
        ({
            let end = bytes.len() as int;
            let size = trailer(bytes);
            &&& 0 <= size < 0x1_0000_0000
            &&& size % 256 == bytes[end - 4]
            &&& size / 256 % 256 == bytes[end - 3]
            &&& size / 65536 % 256 == bytes[end - 2]
            &&& size / 16777216 == bytes[end - 1]
        }),
{
}

} // verus!
