//! The wire form of this program's own instructions: an eight-byte selector
//! tag followed by the arguments, each string carried as a little-endian
//! 32-bit byte length and its UTF-8 bytes.

use vstd::prelude::*;
use vstd::utf8::encode_utf8;

verus! {

/// Selector tag of the `interact_agent` entry point.
pub const INTERACT_AGENT_TAG: [u8; 8] = [29, 244, 136, 236, 66, 239, 235, 88];

/// Selector tag of the `callback_from_agent` entry point, the one handed to
/// the oracle service so its response reaches the right operation.
pub const CALLBACK_FROM_AGENT_TAG: [u8; 8] = [152, 228, 9, 75, 159, 238, 133, 197];

/// The four little-endian bytes of a 32-bit length.
pub open spec fn u32_le(n: u32) -> Seq<u8> {
    seq![
        (n & 0xff) as u8,
        ((n >> 8) & 0xff) as u8,
        ((n >> 16) & 0xff) as u8,
        ((n >> 24) & 0xff) as u8,
    ]
}

/// A string on the wire: its UTF-8 byte length, then its UTF-8 bytes.
pub open spec fn string_wire(text: Seq<char>) -> Seq<u8> {
    u32_le(encode_utf8(text).len() as u32) + encode_utf8(text)
}

/// The full argument data of an `interact_agent` instruction for `text`.
pub open spec fn interact_ix_data(text: Seq<char>) -> Seq<u8> {
    INTERACT_AGENT_TAG@ + string_wire(text)
}

/// Appends every byte of `src` to `dst`, in order.
pub fn push_bytes(dst: &mut Vec<u8>, src: &[u8])
    ensures
        final(dst)@ == old(dst)@ + src@,
{
    let ghost start = dst@;
    let mut i: usize = 0;
    while i < src.len()
        invariant
            i <= src@.len(),
            dst@ == start + src@.take(i as int),
        decreases src@.len() - i,
    {
        dst.push(src[i]);
        proof {
            assert(start + src@.take(i as int) + seq![src@[i as int]] =~= start + src@.take(
                i as int + 1,
            ));
        }
        i += 1;
    }
    proof {
        assert(start + src@.take(src@.len() as int) =~= start + src@);
    }
}

/// Appends the four little-endian bytes of `n` to `dst`.
pub fn push_u32_le(dst: &mut Vec<u8>, n: u32)
    ensures
        final(dst)@ == old(dst)@ + u32_le(n),
{
    dst.push((n & 0xff) as u8);
    dst.push(((n >> 8) & 0xff) as u8);
    dst.push(((n >> 16) & 0xff) as u8);
    dst.push(((n >> 24) & 0xff) as u8);
    proof {
        assert(dst@ =~= old(dst)@ + u32_le(n));
    }
}

/// Encodes the argument data of an `interact_agent` instruction carrying
/// `text`, exactly as the entry point expects to read it back.
pub fn encode_interact_data(text: &str) -> (r: Vec<u8>)
    requires
        encode_utf8(text@).len() <= u32::MAX,
    ensures
        r@ == interact_ix_data(text@),
{
    let bs: &[u8] = text.as_bytes();
    let mut out: Vec<u8> = Vec::new();
    let tag: [u8; 8] = INTERACT_AGENT_TAG;
    push_bytes(&mut out, tag.as_slice());
    push_u32_le(&mut out, bs.len() as u32);
    push_bytes(&mut out, bs);
    proof {
        assert(out@ =~= interact_ix_data(text@));
    }
    out
}

} // verus!
