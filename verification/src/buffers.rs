//! Growable byte buffers from the `bytes` crate, as the session uses them.
//!
//! `BytesMut` is opaque to Verus: its contents are named by
//! `bytes_mut_contents`, and each method the library calls has a wrapper
//! whose contract says what the method does to those contents.
use bytes::BytesMut;
use vstd::prelude::*;

verus! {

#[verifier::external_type_specification]
#[verifier::external_body]
pub struct ExBytesMut(bytes::BytesMut);

/// The bytes a `BytesMut` holds, in order.
pub uninterp spec fn bytes_mut_contents(b: BytesMut) -> Seq<u8>;

/// `BytesMut::new`: the new buffer holds no bytes.
#[verifier::external_body]
pub(crate) fn bytes_new() -> (b: BytesMut)
    ensures
        bytes_mut_contents(b) == Seq::<u8>::empty(),
{
    BytesMut::new()
}

/// `BytesMut::len`: the number of bytes held.
#[verifier::external_body]
pub(crate) fn bytes_len(b: &BytesMut) -> (n: usize)
    ensures
        n == bytes_mut_contents(*b).len(),
{
    b.len()
}

/// `BytesMut::extend_from_slice`: appends `data` after the bytes held,
/// growing the buffer first where needed. Growth panics only when the new
/// length would not fit in `isize`, which `requires` leaves out.
#[verifier::external_body]
pub(crate) fn bytes_extend(b: &mut BytesMut, data: &[u8])
    requires
        bytes_mut_contents(*old(b)).len() + data@.len() <= isize::MAX,
    ensures
        bytes_mut_contents(*final(b)) == bytes_mut_contents(*old(b)) + data@,
{
    b.extend_from_slice(data)
}

/// `BytesMut::split_to`: hands out the first `at` bytes and keeps the rest.
/// It panics when `at` exceeds the length, which `requires` leaves out.
#[verifier::external_body]
pub(crate) fn bytes_split_to(b: &mut BytesMut, at: usize) -> (head: BytesMut)
    requires
        at <= bytes_mut_contents(*old(b)).len(),
    ensures
        bytes_mut_contents(head) == bytes_mut_contents(*old(b)).take(at as int),
        bytes_mut_contents(*final(b)) == bytes_mut_contents(*old(b)).skip(at as int),
{
    b.split_to(at)
}

/// `BytesMut::split_off`: keeps the first `at` bytes and hands out the rest.
/// It panics when `at` exceeds the capacity; `requires` keeps `at` within
/// the length, which the capacity never falls below.
#[verifier::external_body]
pub(crate) fn bytes_split_off(b: &mut BytesMut, at: usize) -> (tail: BytesMut)
    requires
        at <= bytes_mut_contents(*old(b)).len(),
    ensures
        bytes_mut_contents(*final(b)) == bytes_mut_contents(*old(b)).take(at as int),
        bytes_mut_contents(tail) == bytes_mut_contents(*old(b)).skip(at as int),
{
    b.split_off(at)
}

/// `<BytesMut as AsRef<[u8]>>::as_ref`: the bytes held, as a slice.
#[verifier::external_body]
pub(crate) fn bytes_as_slice(b: &BytesMut) -> (s: &[u8])
    ensures
        s@ == bytes_mut_contents(*b),
{
    b.as_ref()
}

} // verus!
