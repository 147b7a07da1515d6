//! Byte buffers: the growable `BytesMut`, and what a packet can be laid over.
use bytes::{Buf, BufMut, BytesMut};
use vstd::prelude::*;

verus! {

#[verifier::external_type_specification]
#[verifier::external_body]
pub struct ExBytesMut(BytesMut);

/// The bytes that a `BytesMut` holds and that are still to be read, in order.
pub uninterp spec fn contents(buffer: BytesMut) -> Seq<u8>;

/// `BytesMut::new`: an empty buffer.
#[verifier::external_body]
pub(crate) fn empty() -> (buffer: BytesMut)
    ensures
        contents(buffer) == Seq::<u8>::empty(),
{
    BytesMut::new()
}

/// `BytesMut::with_capacity`: an empty buffer with room for `capacity` bytes. Of the room
/// nothing is claimed. More than `isize::MAX` bytes cannot be allocated.
#[verifier::external_body]
pub(crate) fn with_capacity(capacity: usize) -> (buffer: BytesMut)
    requires
        capacity <= isize::MAX,
    ensures
        contents(buffer) == Seq::<u8>::empty(),
{
    BytesMut::with_capacity(capacity)
}

/// `BytesMut::zeroed`: a buffer of `len` zero bytes.
#[verifier::external_body]
pub(crate) fn zeroed(len: usize) -> (buffer: BytesMut)
    requires
        len <= isize::MAX,
    ensures
        contents(buffer) == Seq::new(len as nat, |i: int| 0u8),
{
    BytesMut::zeroed(len)
}

/// `BytesMut::from` on a slice: a buffer with a copy of `bytes`.
#[verifier::external_body]
pub(crate) fn copied(bytes: &[u8]) -> (buffer: BytesMut)
    ensures
        contents(buffer) == bytes@,
{
    BytesMut::from(bytes)
}

/// `BytesMut::as_ref`: the contents as a slice.
#[verifier::external_body]
pub(crate) fn as_slice(buffer: &BytesMut) -> (bytes: &[u8])
    ensures
        bytes@ == contents(*buffer),
{
    buffer.as_ref()
}

/// `BytesMut::as_mut`: the contents as a slice that can be written to. What is in the slice
/// when the borrow ends is what the buffer then holds.
#[verifier::external_body]
pub(crate) fn as_mut_slice(buffer: &mut BytesMut) -> (bytes: &mut [u8])
    ensures
        bytes@ == contents(*old(buffer)),
        contents(*final(buffer)) == final(bytes)@,
{
    buffer.as_mut()
}

/// `BytesMut::resize`: the first `len` bytes, with `value` in place of those that are missing.
#[verifier::external_body]
pub(crate) fn resize(buffer: &mut BytesMut, len: usize, value: u8)
    requires
        len <= isize::MAX,
    ensures
        contents(*final(buffer)) == Seq::new(
            len as nat,
            |i: int|
                if i < contents(*old(buffer)).len() {
                    contents(*old(buffer))[i]
                } else {
                    value
                },
        ),
{
    buffer.resize(len, value)
}

/// `BufMut::put_u8` on a `BytesMut`: one byte is appended.
#[verifier::external_body]
pub(crate) fn put_u8(buffer: &mut BytesMut, value: u8)
    requires
        contents(*old(buffer)).len() < isize::MAX,
    ensures
        contents(*final(buffer)) == contents(*old(buffer)).push(value),
{
    buffer.put_u8(value)
}

/// `BufMut::put_slice` on a `BytesMut`: the bytes are appended.
#[verifier::external_body]
pub(crate) fn put_slice(buffer: &mut BytesMut, bytes: &[u8])
    requires
        contents(*old(buffer)).len() + bytes@.len() <= isize::MAX,
    ensures
        contents(*final(buffer)) == contents(*old(buffer)) + bytes@,
{
    buffer.put_slice(bytes)
}

/// `BufMut::put_u32` on a `BytesMut`: the four bytes of `value` are appended, the most
/// significant first.
#[verifier::external_body]
pub(crate) fn put_u32(buffer: &mut BytesMut, value: u32)
    requires
        contents(*old(buffer)).len() + 4 <= isize::MAX,
    ensures
        contents(*final(buffer)) == contents(*old(buffer)) + be_bytes(value),
{
    buffer.put_u32(value)
}

/// `BytesMut::extend_from_slice`: the bytes are appended.
#[verifier::external_body]
pub(crate) fn extend_from_slice(buffer: &mut BytesMut, bytes: &[u8])
    requires
        contents(*old(buffer)).len() + bytes@.len() <= isize::MAX,
    ensures
        contents(*final(buffer)) == contents(*old(buffer)) + bytes@,
{
    buffer.extend_from_slice(bytes)
}

/// `BytesMut::clear`: nothing is left.
#[verifier::external_body]
pub(crate) fn clear(buffer: &mut BytesMut)
    ensures
        contents(*final(buffer)) == Seq::<u8>::empty(),
{
    buffer.clear()
}

/// `Buf::advance` on a `BytesMut`: the first `count` bytes are dropped.
#[verifier::external_body]
pub(crate) fn advance(buffer: &mut BytesMut, count: usize)
    requires
        count <= contents(*old(buffer)).len(),
    ensures
        contents(*final(buffer)) == contents(*old(buffer)).skip(count as int),
{
    buffer.advance(count)
}

/// The four bytes of `value`, the most significant first.
pub open spec fn be_bytes(value: u32) -> Seq<u8> {
    seq![
        (value / 0x100_0000) as u8,
        (value / 0x1_0000 % 0x100) as u8,
        (value / 0x100 % 0x100) as u8,
        (value % 0x100) as u8,
    ]
}

/// The number that four bytes make, the most significant first.
pub open spec fn be_u32(bytes: Seq<u8>) -> u32
    recommends
        bytes.len() == 4,
{
    (bytes[0] * 0x100_0000 + bytes[1] * 0x1_0000 + bytes[2] * 0x100 + bytes[3]) as u32
}

/// Reading back the four bytes of a number gives the number.
pub proof fn lemma_be_u32_of_bytes(value: u32)
    ensures
        be_bytes(value).len() == 4,
        be_u32(be_bytes(value)) == value,
{
}

/// Four bytes are those of the number that they make.
pub proof fn lemma_be_bytes_of_u32(bytes: Seq<u8>)
    requires
        bytes.len() == 4,
    ensures
        be_bytes(be_u32(bytes)) == bytes,
{
    let (a, b, c, d) = (bytes[0], bytes[1], bytes[2], bytes[3]);
    let value = be_u32(bytes);
    assert(value == a * 0x100_0000 + b * 0x1_0000 + c * 0x100 + d);
    assert(value / 0x100_0000 == a) by (bit_vector)
        requires
            value == a * 0x100_0000 + b * 0x1_0000 + c * 0x100 + d,
    ;
    assert(value / 0x1_0000 % 0x100 == b) by (bit_vector)
        requires
            value == a * 0x100_0000 + b * 0x1_0000 + c * 0x100 + d,
    ;
    assert(value / 0x100 % 0x100 == c) by (bit_vector)
        requires
            value == a * 0x100_0000 + b * 0x1_0000 + c * 0x100 + d,
    ;
    assert(value % 0x100 == d) by (bit_vector)
        requires
            value == a * 0x100_0000 + b * 0x1_0000 + c * 0x100 + d,
    ;
    assert(be_bytes(value) =~= bytes);
}

/// Bytes that a packet can be laid over.
pub trait ByteBuffer {
    /// The bytes of the buffer.
    spec fn bytes(&self) -> Seq<u8>;

    fn as_bytes(&self) -> (bytes: &[u8])
        ensures
            bytes@ == self.bytes(),
    ;
}

/// Bytes that a packet can be laid over and written to.
pub trait ByteBufferMut: ByteBuffer {
    fn as_bytes_mut(&mut self) -> (bytes: &mut [u8])
        ensures
            bytes@ == old(self).bytes(),
            final(self).bytes() == final(bytes)@,
    ;
}

impl ByteBuffer for BytesMut {
    open spec fn bytes(&self) -> Seq<u8> {
        contents(*self)
    }

    fn as_bytes(&self) -> (bytes: &[u8]) {
        as_slice(self)
    }
}

impl ByteBufferMut for BytesMut {
    fn as_bytes_mut(&mut self) -> (bytes: &mut [u8]) {
        as_mut_slice(self)
    }
}

impl<'a> ByteBuffer for &'a [u8] {
    open spec fn bytes(&self) -> Seq<u8> {
        self@
    }

    fn as_bytes(&self) -> (bytes: &[u8]) {
        *self
    }
}

impl<const N: usize> ByteBuffer for [u8; N] {
    open spec fn bytes(&self) -> Seq<u8> {
        self@
    }

    fn as_bytes(&self) -> (bytes: &[u8]) {
        self.as_slice()
    }
}

/// `as_mut_slice` on an array: the whole array as a slice that can be written to. What is in the
/// slice when the borrow ends is what the array then holds.
#[verifier::external_body]
fn array_as_mut_slice<const N: usize>(array: &mut [u8; N]) -> (bytes: &mut [u8])
    ensures
        bytes@ == old(array)@,
        final(array)@ == final(bytes)@,
{
    array.as_mut_slice()
}

impl<const N: usize> ByteBufferMut for [u8; N] {
    fn as_bytes_mut(&mut self) -> (bytes: &mut [u8]) {
        array_as_mut_slice(self)
    }
}

impl ByteBuffer for Vec<u8> {
    open spec fn bytes(&self) -> Seq<u8> {
        self@
    }

    fn as_bytes(&self) -> (bytes: &[u8]) {
        self.as_slice()
    }
}

impl ByteBufferMut for Vec<u8> {
    fn as_bytes_mut(&mut self) -> (bytes: &mut [u8]) {
        self.as_mut_slice()
    }
}

/// Writes `from` over the first bytes of `to`.
pub(crate) fn copy_to_front(to: &mut [u8], from: &[u8])
    requires
        from@.len() <= old(to)@.len(),
    ensures
        final(to)@ == from@ + old(to)@.skip(from@.len() as int),
{
    let count: usize = from.len();
    for i in 0..count
        invariant
            count == from@.len(),
            count <= to@.len(),
            to@.len() == old(to)@.len(),
            to@ == from@.take(i as int) + old(to)@.skip(i as int),
    {
        to[i] = from[i];
        assert(to@ =~= from@.take(i + 1) + old(to)@.skip(i + 1));
    }
    assert(from@.take(count as int) =~= from@);
}

} // verus!
