//! Declarations of the outside types and calls the buffer logic relies on.

use vstd::prelude::*;

use crate::bits::bit_slice_spec;
use crate::hexfmt::hex_upper;
use crate::typed::{encode_values, FixedWidth};

verus! {

/// `arrow_buffer::Buffer`: an immutable, reference-counted byte region.
#[verifier::external_type_specification]
#[verifier::external_body]
pub struct ExBuffer(arrow_buffer::Buffer);

/// `bytes::Bytes`: a cheaply clonable, immutable byte region.
#[verifier::external_type_specification]
#[verifier::external_body]
pub struct ExBytes(bytes::Bytes);

/// The bytes reachable through an arrow `Buffer`.
pub uninterp spec fn buffer_bytes(b: arrow_buffer::Buffer) -> Seq<u8>;

/// The bytes held by a `bytes::Bytes`.
pub uninterp spec fn bytes_content(b: bytes::Bytes) -> Seq<u8>;

/// Relies on `Buffer::from_vec`: takes over the vector's allocation, keeping its bytes.
#[verifier::external_body]
pub(crate) fn buffer_from_byte_vec(v: Vec<u8>) -> (r: arrow_buffer::Buffer)
    ensures
        buffer_bytes(r) == v@,
{
    arrow_buffer::Buffer::from_vec(v)
}

/// Relies on `From<Vec<T>> for Buffer`: takes over the vector's allocation, whose
/// bytes are the values' native-endian bytes in order; on the little-endian
/// machines this library targets, least significant byte first.
#[verifier::external_body]
pub(crate) fn buffer_from_values<T: arrow_buffer::ArrowNativeType + FixedWidth>(v: Vec<T>) -> (r: arrow_buffer::Buffer)
    ensures
        buffer_bytes(r) == encode_values(v@),
{
    arrow_buffer::Buffer::from(v)
}

/// Relies on `Buffer::as_slice`: a view of exactly the buffer's bytes.
#[verifier::external_body]
pub(crate) fn buffer_as_slice(b: &arrow_buffer::Buffer) -> (r: &[u8])
    ensures
        r@ == buffer_bytes(*b),
{
    b.as_slice()
}

/// Relies on `Buffer::clone`: a new handle on the same region.
#[verifier::external_body]
pub(crate) fn buffer_clone(b: &arrow_buffer::Buffer) -> (r: arrow_buffer::Buffer)
    ensures
        buffer_bytes(r) == buffer_bytes(*b),
{
    b.clone()
}

/// Relies on `Buffer::slice_with_length`: a handle on `length` bytes from `offset`;
/// it panics when the range passes the end.
#[verifier::external_body]
pub(crate) fn buffer_slice_with_length(b: &arrow_buffer::Buffer, offset: usize, length: usize) -> (r: arrow_buffer::Buffer)
    requires
        offset + length <= buffer_bytes(*b).len(),
    ensures
        buffer_bytes(r) == buffer_bytes(*b).subrange(offset as int, offset + length),
{
    b.slice_with_length(offset, length)
}

/// Relies on `arrow_buffer::bitwise_unary_op_helper` with the identity operation:
/// `len` bits from bit `offset`, packed from bit 0 of a fresh region of
/// `ceil(len / 8)` bytes, the bits above `len` cleared. It panics when the bits
/// pass the end of the source.
#[verifier::external_body]
pub(crate) fn buffer_bits_copy(b: &arrow_buffer::Buffer, offset: usize, len: usize) -> (r: arrow_buffer::Buffer)
    requires
        offset + len <= 8 * buffer_bytes(*b).len(),
    ensures
        buffer_bytes(r) == bit_slice_spec(buffer_bytes(*b), offset as int, len as int),
{
    arrow_buffer::bitwise_unary_op_helper(b, offset, len, |a| a)
}

/// Relies on `Buffer::into_vec::<u8>`: hands back the allocation when this is its
/// only holder, else returns the buffer unchanged.
#[verifier::external_body]
pub(crate) fn buffer_into_byte_vec(b: arrow_buffer::Buffer) -> (r: Result<Vec<u8>, arrow_buffer::Buffer>)
    ensures
        match r {
            Ok(v) => v@ == buffer_bytes(b),
            Err(back) => buffer_bytes(back) == buffer_bytes(b),
        },
{
    b.into_vec::<u8>()
}

/// Relies on `Buffer::as_ptr` and the pointer's `align_offset`: whether the region
/// starts at an address aligned for values of `T`. The address is not modelled, so
/// nothing is promised of the answer.
#[verifier::external_body]
pub(crate) fn buffer_is_aligned_for<T>(b: &arrow_buffer::Buffer) -> (r: bool)
{
    b.as_ptr().align_offset(std::mem::align_of::<T>()) == 0
}

/// Relies on `Buffer::from_slice_ref`: a fresh region, allocated with arrow's
/// 64-byte alignment, holding a copy of `s`.
#[verifier::external_body]
pub(crate) fn buffer_copy_of(s: &[u8]) -> (r: arrow_buffer::Buffer)
    ensures
        buffer_bytes(r) == s@,
{
    arrow_buffer::Buffer::from_slice_ref(s)
}

/// Relies on `From<Vec<u8>> for bytes::Bytes`: takes over the vector, keeping its bytes.
#[verifier::external_body]
pub(crate) fn bytes_from_vec(v: Vec<u8>) -> (r: bytes::Bytes)
    ensures
        bytes_content(r) == v@,
{
    bytes::Bytes::from(v)
}

/// Relies on `hex::encode_upper`: two upper-case hexadecimal digits for each byte,
/// high nibble first.
#[verifier::external_body]
pub(crate) fn encode_upper(b: &[u8]) -> (r: String)
    ensures
        r@ == hex_upper(b@),
{
    hex::encode_upper(b)
}

} // verus!
