//! The `bytes` crate's buffers, with the contents that the library reasons about.
use bytes::{BufMut, Bytes, BytesMut};
use vstd::prelude::*;

verus! {

/// `bytes::Bytes`, an immutable run of bytes.
#[verifier::external_type_specification]
#[verifier::external_body]
pub struct ExBytes(Bytes);

/// `bytes::BytesMut`, a growing run of bytes.
#[verifier::external_type_specification]
#[verifier::external_body]
pub struct ExBytesMut(BytesMut);

/// What a `Bytes` holds.
pub uninterp spec fn bytes_of(b: Bytes) -> Seq<u8>;

/// What a `BytesMut` holds so far.
pub uninterp spec fn written(b: BytesMut) -> Seq<u8>;

/// The two bytes of `n`, most significant first.
pub open spec fn be16(n: u16) -> Seq<u8> {
    seq![(n / 256) as u8, (n % 256) as u8]
}

/// The four bytes of `n`, most significant first.
pub open spec fn be32(n: u32) -> Seq<u8> {
    be16((n / 0x1_0000) as u16) + be16((n % 0x1_0000) as u16)
}

/// The number whose bytes are `a` and `b`, most significant first.
pub open spec fn be16_value(a: u8, b: u8) -> u16 {
    (a * 256 + b) as u16
}

/// The number whose bytes are `a`, `b`, `c` and `d`, most significant first.
pub open spec fn be32_value(a: u8, b: u8, c: u8, d: u8) -> u32 {
    (be16_value(a, b) * 0x1_0000 + be16_value(c, d)) as u32
}

/// The four bytes of `n`, least significant first.
pub open spec fn le32(n: u32) -> Seq<u8> {
    be32(n).reverse()
}

/// A number's bytes stand for the number.
pub proof fn lemma_be_value(m: u16, n: u32)
    ensures
        be16_value(be16(m)[0], be16(m)[1]) == m,
        be32_value(be32(n)[0], be32(n)[1], be32(n)[2], be32(n)[3]) == n,
{
}

/// The number that bytes stand for has those bytes.
pub proof fn lemma_be_bytes(a: u8, b: u8, c: u8, d: u8)
    ensures
        be16(be16_value(a, b)) == seq![a, b],
        be32(be32_value(a, b, c, d)) == seq![a, b, c, d],
{
    let hi = be16_value(a, b);
    let lo = be16_value(c, d);
    assert(be16(hi) =~= seq![a, b]);
    assert(be16(lo) =~= seq![c, d]);
    let n = be32_value(a, b, c, d);
    assert(n == hi * 0x1_0000 + lo);
    assert(n / 0x1_0000 == hi && n % 0x1_0000 == lo);
    assert(be32(n) =~= seq![a, b, c, d]);
}

/// `Bytes::new` is empty.
#[verifier::external_body]
pub(crate) fn empty_bytes() -> (b: Bytes)
    ensures
        bytes_of(b) == Seq::<u8>::empty(),
{
    Bytes::new()
}

/// `Bytes::copy_from_slice` holds the slice's bytes.
#[verifier::external_body]
pub(crate) fn copied_bytes(data: &[u8]) -> (b: Bytes)
    ensures
        bytes_of(b) == data@,
{
    Bytes::copy_from_slice(data)
}

/// `Bytes::clone` holds the same bytes.
#[verifier::external_body]
pub(crate) fn bytes_clone(b: &Bytes) -> (r: Bytes)
    ensures
        bytes_of(r) == bytes_of(*b),
{
    b.clone()
}

/// `Bytes::from` on a vector holds the vector's bytes.
#[verifier::external_body]
pub(crate) fn bytes_from_vec(data: Vec<u8>) -> (b: Bytes)
    ensures
        bytes_of(b) == data@,
{
    Bytes::from(data)
}

/// `Bytes::as_ref` gives the bytes held, as a slice.
#[verifier::external_body]
pub(crate) fn bytes_slice(b: &Bytes) -> (s: &[u8])
    ensures
        s@ == bytes_of(*b),
{
    b.as_ref()
}

/// `Bytes::len` counts the bytes held.
#[verifier::external_body]
pub(crate) fn bytes_len(b: &Bytes) -> (n: usize)
    ensures
        n == bytes_of(*b).len(),
{
    b.len()
}

/// `BytesMut::with_capacity` starts empty. It panics on a capacity that no allocation can have.
#[verifier::external_body]
pub(crate) fn buffer_with_capacity(capacity: usize) -> (b: BytesMut)
    requires
        capacity <= isize::MAX,
    ensures
        written(b) == Seq::<u8>::empty(),
{
    BytesMut::with_capacity(capacity)
}

/// `BufMut::put_u8` on a `BytesMut` appends the byte. It panics where no allocation can hold the
/// result.
#[verifier::external_body]
pub(crate) fn put_u8(b: &mut BytesMut, n: u8)
    requires
        written(*old(b)).len() + 1 <= isize::MAX,
    ensures
        written(*final(b)) == written(*old(b)).push(n),
{
    b.put_u8(n)
}

/// `BufMut::put_u16` on a `BytesMut` appends the number's bytes, most significant first. It
/// panics where no allocation can hold the result.
#[verifier::external_body]
pub(crate) fn put_u16(b: &mut BytesMut, n: u16)
    requires
        written(*old(b)).len() + 2 <= isize::MAX,
    ensures
        written(*final(b)) == written(*old(b)) + be16(n),
{
    b.put_u16(n)
}

/// `BufMut::put_u32` on a `BytesMut` appends the number's bytes, most significant first. It
/// panics where no allocation can hold the result.
#[verifier::external_body]
pub(crate) fn put_u32(b: &mut BytesMut, n: u32)
    requires
        written(*old(b)).len() + 4 <= isize::MAX,
    ensures
        written(*final(b)) == written(*old(b)) + be32(n),
{
    b.put_u32(n)
}

/// `BufMut::put_slice` on a `BytesMut` appends the slice. It panics where no allocation can hold
/// the result.
#[verifier::external_body]
pub(crate) fn put_slice(b: &mut BytesMut, data: &[u8])
    requires
        written(*old(b)).len() + data@.len() <= isize::MAX,
    ensures
        written(*final(b)) == written(*old(b)) + data@,
{
    b.put_slice(data)
}

/// `BytesMut::freeze` keeps the bytes.
#[verifier::external_body]
pub(crate) fn freeze(b: BytesMut) -> (r: Bytes)
    ensures
        bytes_of(r) == written(b),
{
    b.freeze()
}

/// The order of bytes, by their weights: most significant first, or least significant first.
pub proof fn law_byte_order(m: u16, n: u32, a: u8, b: u8, c: u8, d: u8)
    ensures
        be16(m).len() == 2,
        be16(m)[0] * 256 + be16(m)[1] == m,
        be32(n).len() == 4,
        be32(n)[0] * 16777216 + be32(n)[1] * 65536 + be32(n)[2] * 256 + be32(n)[3] == n,
        le32(n).len() == 4,
        le32(n)[0] + le32(n)[1] * 256 + le32(n)[2] * 65536 + le32(n)[3] * 16777216 == n,
        be16_value(a, b) == a * 256 + b,
        be32_value(a, b, c, d) == a * 16777216 + b * 65536 + c * 256 + d,
{
}

} // verus!
