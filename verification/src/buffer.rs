//! Reference-counted byte buffers.

use bytes::Bytes;
use vstd::prelude::*;

verus! {

/// `bytes::Bytes`, a cheaply cloneable and immutable byte buffer.
#[verifier::external_type_specification]
#[verifier::external_body]
pub struct ExBytes(Bytes);

/// The bytes that a buffer holds.
pub uninterp spec fn bytes_contents(buffer: Bytes) -> Seq<u8>;

/// `Bytes::clone` returns another handle to the same immutable contents.
pub assume_specification[ <Bytes as Clone>::clone ](buffer: &Bytes) -> (copy: Bytes)
    ensures
        bytes_contents(copy) == bytes_contents(*buffer),
;

/// `Bytes::new` returns a buffer without contents.
pub assume_specification[ Bytes::new ]() -> (buffer: Bytes)
    ensures
        bytes_contents(buffer) == Seq::<u8>::empty(),
;

/// `Bytes::copy_from_slice` returns a buffer that holds a copy of the slice.
pub assume_specification[ Bytes::copy_from_slice ](data: &[u8]) -> (buffer: Bytes)
    ensures
        bytes_contents(buffer) == data@,
;

/// `Bytes::len` is the number of bytes that the buffer holds.
pub assume_specification[ Bytes::len ](buffer: &Bytes) -> (length: usize)
    ensures
        length == bytes_contents(*buffer).len(),
;

/// Compares two buffers with the `==` of `Bytes`, which compares their contents.
#[verifier::external_body]
pub(crate) fn bytes_equal(left: &Bytes, right: &Bytes) -> (equal: bool)
    ensures
        equal == (bytes_contents(*left) == bytes_contents(*right)),
{
    left == right
}

} // verus!
