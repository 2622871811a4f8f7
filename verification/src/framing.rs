//! Length-prefixed frames: a big-endian `u32` length, then the magic line,
//! then the encoded message. The length counts the magic line and the
//! message, not the four length bytes themselves.
use byteorder::{BigEndian, ReadBytesExt, WriteBytesExt};
use vstd::prelude::*;

verus! {

/// The four bytes of `x`, most significant first.
pub open spec fn u32_be_bytes(x: u32) -> Seq<u8> {
    seq![
        (x / 0x1000000) as u8,
        ((x / 0x10000) % 0x100) as u8,
        ((x / 0x100) % 0x100) as u8,
        (x % 0x100) as u8,
    ]
}

/// The `u32` whose big-endian bytes are the first four of `b`.
pub open spec fn u32_from_be(b: Seq<u8>) -> u32
    recommends
        b.len() >= 4,
{
    (b[0] * 0x1000000 + b[1] * 0x10000 + b[2] * 0x100 + b[3]) as u32
}

/// The `u32` whose little-endian bytes are the first four of `b`.
pub open spec fn u32_from_le(b: Seq<u8>) -> u32
    recommends
        b.len() >= 4,
{
    (b[0] + b[1] * 0x100 + b[2] * 0x10000 + b[3] * 0x1000000) as u32
}

/// Reading back the big-endian bytes of `x` gives `x`.
pub proof fn lemma_u32_be_roundtrip(x: u32)
    ensures
        u32_be_bytes(x).len() == 4,
        u32_from_be(u32_be_bytes(x)) == x,
{
    let b = u32_be_bytes(x);
    assert(x / 0x1000000 < 0x100) by (bit_vector);
    assert(b[0] == x / 0x1000000);
    assert(b[1] == (x / 0x10000) % 0x100);
    assert(b[2] == (x / 0x100) % 0x100);
    assert(b[3] == x % 0x100);
    assert((x / 0x1000000) * 0x1000000 + ((x / 0x10000) % 0x100) * 0x10000 + ((x / 0x100) % 0x100)
        * 0x100 + x % 0x100 == x) by (bit_vector);
}

/// Big-endian bytes of the same value are equal only for equal values.
pub proof fn lemma_u32_be_injective(x: u32, y: u32)
    ensures
        u32_be_bytes(x) == u32_be_bytes(y) <==> x == y,
{
    lemma_u32_be_roundtrip(x);
    lemma_u32_be_roundtrip(y);
}

/// `WriteBytesExt::write_u32::<BigEndian>` on an empty `Vec`: the vector
/// then holds the four big-endian bytes of `x`. Writing to a `Vec` cannot
/// fail.
#[verifier::external_body]
fn write_u32_be(x: u32) -> (v: Vec<u8>)
    ensures
        v@ == u32_be_bytes(x),
{
    let mut v: Vec<u8> = Vec::new();
    v.write_u32::<BigEndian>(x).unwrap();
    v
}

/// `ReadBytesExt::read_u32::<BigEndian>` on a slice: the value whose
/// big-endian bytes are the first four of the slice. It fails only on fewer
/// than four bytes, which `requires` leaves out.
#[verifier::external_body]
pub(crate) fn read_u32_be(bytes: &[u8]) -> (x: u32)
    requires
        bytes@.len() >= 4,
    ensures
        x == u32_from_be(bytes@),
{
    let mut r = bytes;
    r.read_u32::<BigEndian>().unwrap()
}

/// The length a frame announces for a magic line and a message: the sum of
/// their lengths, each taken as a `u32`.
pub open spec fn announced_len(magic: Seq<u8>, payload: Seq<u8>) -> int {
    (magic.len() as u32) + (payload.len() as u32)
}

/// The bytes of the frame that carries `magic` and `payload`.
pub open spec fn frame_bytes(magic: Seq<u8>, payload: Seq<u8>) -> Seq<u8> {
    u32_be_bytes(announced_len(magic, payload) as u32) + magic + payload
}

/// Builds the frame that carries the magic line `magic` and the encoded
/// message `payload`. The announced length must fit in a `u32`.
pub fn frame_request(magic: &[u8], payload: &[u8]) -> (frame: Vec<u8>)
    requires
        announced_len(magic@, payload@) <= u32::MAX,
    ensures
        frame@ == frame_bytes(magic@, payload@),
{
    let size: u32 = magic.len() as u32 + payload.len() as u32;
    let mut post_data: Vec<u8> = write_u32_be(size);
    let mut i: usize = 0;
    while i < magic.len()
        invariant
            i <= magic@.len(),
            post_data@ == u32_be_bytes(size) + magic@.take(i as int),
        decreases magic@.len() - i,
    {
        post_data.push(magic[i]);
        i = i + 1;
        assert(magic@.take(i as int) =~= magic@.take(i - 1).push(magic@[i - 1]));
    }
    assert(magic@.take(i as int) =~= magic@);
    let mut j: usize = 0;
    while j < payload.len()
        invariant
            j <= payload@.len(),
            post_data@ == u32_be_bytes(size) + magic@ + payload@.take(j as int),
        decreases payload@.len() - j,
    {
        post_data.push(payload[j]);
        j = j + 1;
        assert(payload@.take(j as int) =~= payload@.take(j - 1).push(payload@[j - 1]));
    }
    assert(payload@.take(j as int) =~= payload@);
    post_data
}

} // verus!
