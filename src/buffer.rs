//! The buffer type, its ownership transitions, slicing and combination.

use vstd::prelude::*;
use vstd::std_specs::cmp::PartialEqSpec;
use vstd::string::StringExecFns;

use crate::bits::{bit_slice_spec, bytes_for_bits};
use crate::foreign::{
    buffer_as_slice, buffer_bits_copy, buffer_bytes, buffer_clone, buffer_from_byte_vec,
    buffer_from_values, buffer_into_byte_vec, buffer_slice_with_length, bytes_content,
    buffer_copy_of, buffer_is_aligned_for, bytes_from_vec, encode_upper,
};
use crate::typed::{decode_values, encode_values, lemma_encode_values_len, lemma_values_round_trip, FixedWidth};
use crate::hexfmt::{hex_upper, lemma_hex_upper_concat, lemma_hex_upper_len, spaced_words};

verus! {

/// A copy-on-write byte buffer.
///
/// `Borrowed` holds a shared, read-only, reference-counted region: cloning it is
/// cheap and never copies.  `Owned` holds an exclusively owned allocation.  The
/// type has no `Clone`: use `borrow_and_clone` (switches to `Borrowed` first, no
/// copy), `try_clone` (fails on `Owned`) or `deep_copy` (always copies).
#[derive(Debug)]
pub enum LanceBuffer {
    Borrowed(arrow_buffer::Buffer),
    Owned(Vec<u8>),
}

/// The failures a caller can recover from.
#[derive(Debug, PartialEq, Eq, Structural)]
pub enum BufferError {
    /// `zip_into_one` was given a column whose values are not whole bytes wide.
    UnsupportedBitWidth { bits_per_value: u64 },
    /// `try_clone` was called on an owned buffer.
    CloneOfOwned,
}

impl View for LanceBuffer {
    type V = Seq<u8>;

    /// The bytes reachable through the buffer, whatever its variant.
    open spec fn view(&self) -> Seq<u8> {
        match self {
            LanceBuffer::Borrowed(b) => buffer_bytes(*b),
            LanceBuffer::Owned(v) => v@,
        }
    }
}

/// A copy of a byte slice.
fn copy_bytes(s: &[u8]) -> (r: Vec<u8>)
    ensures
        r@ == s@,
{
    let mut out: Vec<u8> = Vec::with_capacity(s.len());
    let mut i: usize = 0;
    while i < s.len()
        invariant
            i <= s@.len(),
            out@ == s@.subrange(0, i as int),
        decreases s@.len() - i,
    {
        out.push(s[i]);
        i = i + 1;
    }
    assert(out@ =~= s@);
    out
}

/// Appends the bytes `s[from..to]` to `out`.
pub(crate) fn append_range(out: &mut Vec<u8>, s: &[u8], from: usize, to: usize)
    requires
        from <= to <= s@.len(),
    ensures
        final(out)@ == old(out)@ + s@.subrange(from as int, to as int),
{
    let mut i: usize = from;
    while i < to
        invariant
            from <= i <= to <= s@.len(),
            out@ == old(out)@ + s@.subrange(from as int, i as int),
        decreases to - i,
    {
        out.push(s[i]);
        i = i + 1;
        assert(s@.subrange(from as int, i as int) =~= s@.subrange(from as int, i - 1) + seq![s@[i - 1]]);
    }
}

/// A buffer of `n` copies of `value`.
fn filled(value: u8, n: usize) -> (r: Vec<u8>)
    ensures
        r@ == Seq::new(n as nat, |_i: int| value),
{
    let mut out: Vec<u8> = Vec::with_capacity(n);
    let mut i: usize = 0;
    while i < n
        invariant
            i <= n,
            out@ == Seq::new(i as nat, |_i: int| value),
        decreases n - i,
    {
        out.push(value);
        i = i + 1;
        assert(out@ =~= Seq::new(i as nat, |_i: int| value));
    }
    out
}

impl PartialEq for LanceBuffer {
    /// Equality of content, ignoring whether either buffer is owned or borrowed.
    fn eq(&self, other: &Self) -> (r: bool)
        ensures
            r == (self@ == other@),
    {
        let a = self.as_ref();
        let b = other.as_ref();
        if a.len() != b.len() {
            return false;
        }
        let mut i: usize = 0;
        while i < a.len()
            invariant
                a@ == self@,
                b@ == other@,
                a@.len() == b@.len(),
                i <= a@.len(),
                a@.subrange(0, i as int) == b@.subrange(0, i as int),
            decreases a@.len() - i,
        {
            if a[i] != b[i] {
                assert(self@[i as int] != other@[i as int]);
                assert(self@ != other@);
                return false;
            }
            assert(a@.subrange(0, i + 1) =~= a@.subrange(0, i as int).push(a@[i as int]));
            assert(b@.subrange(0, i + 1) =~= b@.subrange(0, i as int).push(b@[i as int]));
            i = i + 1;
        }
        assert(a@ =~= a@.subrange(0, i as int));
        assert(b@ =~= b@.subrange(0, i as int));
        true
    }

}

impl Eq for LanceBuffer {}

impl vstd::std_specs::cmp::PartialEqSpecImpl for LanceBuffer {
    open spec fn obeys_eq_spec() -> bool {
        true
    }

    open spec fn eq_spec(&self, other: &LanceBuffer) -> bool {
        self@ == other@
    }
}

impl From<Vec<u8>> for LanceBuffer {
    /// An owned buffer that takes over the vector; no copy.
    fn from(buffer: Vec<u8>) -> (r: Self) {
        LanceBuffer::Owned(buffer)
    }
}

impl vstd::std_specs::convert::FromSpecImpl<Vec<u8>> for LanceBuffer {
    open spec fn obeys_from_spec() -> bool {
        true
    }

    open spec fn from_spec(v: Vec<u8>) -> LanceBuffer {
        LanceBuffer::Owned(v)
    }
}

impl From<arrow_buffer::Buffer> for LanceBuffer {
    /// A borrowed buffer that takes over the arrow buffer; no copy.
    fn from(buffer: arrow_buffer::Buffer) -> (r: Self) {
        LanceBuffer::Borrowed(buffer)
    }
}

impl vstd::std_specs::convert::FromSpecImpl<arrow_buffer::Buffer> for LanceBuffer {
    open spec fn obeys_from_spec() -> bool {
        true
    }

    open spec fn from_spec(v: arrow_buffer::Buffer) -> LanceBuffer {
        LanceBuffer::Borrowed(v)
    }
}

/// Values of `T` turned into a buffer read back, as values of `T`, as the same
/// values: the buffer `reinterpret_vec` makes holds `encode_values(v)`, whose length
/// `borrow_to_typed_slice` accepts and whose bytes it hands out unchanged.
pub proof fn lemma_typed_round_trip<T: FixedWidth>(v: Seq<T>, buf: LanceBuffer)
    requires
        buf@ == encode_values(v),
    ensures
        T::width() > 0,
        buf@.len() % T::width() == 0,
        decode_values::<T>(buf@) == v,
{
    T::lemma_width_positive();
    lemma_values_round_trip(v);
    lemma_encode_values_len(v);
    assert((v.len() * T::width()) % T::width() == 0) by (nonlinear_arith)
        requires
            T::width() > 0,
    ;
}

/// Two buffers over the same bytes are equal, whichever mode each is in.
pub proof fn lemma_equality_ignores_mode(b: Seq<u8>, shared: LanceBuffer, owned: LanceBuffer)
    requires
        shared is Borrowed,
        owned is Owned,
        shared@ == b,
        owned@ == b,
    ensures
        shared.eq_spec(&owned),
        owned.eq_spec(&shared),
{
}

impl LanceBuffer {
    /// The buffer is in shared (borrowed) mode.
    pub open spec fn is_borrowed(&self) -> bool {
        self is Borrowed
    }

    /// Converts into a mutable byte vector; a borrowed buffer is copied.
    pub fn into_owned(self) -> (r: Vec<u8>)
        ensures
            r@ == self@,
    {
        match self {
            LanceBuffer::Borrowed(buffer) => copy_bytes(buffer_as_slice(&buffer)),
            LanceBuffer::Owned(buffer) => buffer,
        }
    }

    /// Converts into a shared arrow buffer; never copies.
    pub fn into_buffer(self) -> (r: arrow_buffer::Buffer)
        ensures
            buffer_bytes(r) == self@,
    {
        match self {
            LanceBuffer::Borrowed(buffer) => buffer,
            LanceBuffer::Owned(buffer) => buffer_from_byte_vec(buffer),
        }
    }

    /// An owned buffer of `len` zero bytes.
    pub fn all_unset(len: usize) -> (r: Self)
        ensures
            r is Owned,
            r@ == Seq::new(len as nat, |_i: int| 0u8),
    {
        LanceBuffer::Owned(filled(0, len))
    }

    /// An owned buffer of `len` bytes with every bit set.
    pub fn all_set(len: usize) -> (r: Self)
        ensures
            r is Owned,
            r@ == Seq::new(len as nat, |_i: int| 0xffu8),
    {
        LanceBuffer::Owned(filled(0xff, len))
    }

    /// An empty owned buffer.
    pub fn empty() -> (r: Self)
        ensures
            r is Owned,
            r@ == Seq::<u8>::empty(),
    {
        LanceBuffer::Owned(Vec::new())
    }

    /// The number of bytes in the buffer.
    pub fn len(&self) -> (r: usize)
        ensures
            r == self@.len(),
    {
        self.as_ref().len()
    }

    /// A view of the buffer's bytes.
    pub fn as_ref(&self) -> (r: &[u8])
        ensures
            r@ == self@,
    {
        match self {
            LanceBuffer::Borrowed(buffer) => buffer_as_slice(buffer),
            LanceBuffer::Owned(buffer) => buffer.as_slice(),
        }
    }

    /// Converts into a borrowed buffer without copying.
    pub fn into_borrowed(self) -> (r: Self)
        ensures
            r is Borrowed,
            r@ == self@,
    {
        match self {
            LanceBuffer::Borrowed(_) => self,
            LanceBuffer::Owned(buffer) => LanceBuffer::Borrowed(buffer_from_byte_vec(buffer)),
        }
    }

    /// An owned copy of the buffer; always copies the bytes.
    pub fn to_owned(&self) -> (r: Self)
        ensures
            r is Owned,
            r@ == self@,
    {
        LanceBuffer::Owned(copy_bytes(self.as_ref()))
    }

    /// A clone of the buffer that first puts this buffer into borrowed mode, so that
    /// neither copies the bytes.
    pub fn borrow_and_clone(&mut self) -> (r: Self)
        ensures
            final(self).is_borrowed(),
            final(self)@ == old(self)@,
            r is Borrowed,
            r@ == old(self)@,
    {
        let mut taken = LanceBuffer::empty();
        std::mem::swap(self, &mut taken);
        let buffer = taken.into_buffer();
        let copy = buffer_clone(&buffer);
        *self = LanceBuffer::Borrowed(buffer);
        LanceBuffer::Borrowed(copy)
    }

    /// A clone of a borrowed buffer; fails on an owned buffer, which would have to
    /// be copied.
    pub fn try_clone(&self) -> (r: Result<Self, BufferError>)
        ensures
            self is Borrowed ==> (r matches Ok(c) && c is Borrowed && c@ == self@),
            self is Owned ==> r == Err::<Self, BufferError>(BufferError::CloneOfOwned),
    {
        match self {
            LanceBuffer::Borrowed(buffer) => Ok(LanceBuffer::Borrowed(buffer_clone(buffer))),
            LanceBuffer::Owned(_) => Err(BufferError::CloneOfOwned),
        }
    }

    /// An owned copy of the buffer; always copies the bytes.
    pub fn deep_copy(&self) -> (r: Self)
        ensures
            r is Owned,
            r@ == self@,
    {
        LanceBuffer::Owned(copy_bytes(self.as_ref()))
    }

    /// An owned buffer holding a copy of `slice`.
    pub fn copy_slice(slice: &[u8]) -> (r: Self)
        ensures
            r is Owned,
            r@ == slice@,
    {
        LanceBuffer::Owned(copy_bytes(slice))
    }

    /// An owned buffer holding a copy of `array`.
    pub fn copy_array<const N: usize>(array: [u8; N]) -> (r: Self)
        ensures
            r is Owned,
            r@ == array@,
    {
        LanceBuffer::Owned(copy_bytes(array.as_slice()))
    }

    /// A buffer over `length` bytes from `offset`.  A borrowed buffer gives a
    /// borrowed slice of the same region (no copy); an owned buffer gives an owned
    /// copy of the range.
    pub fn slice_with_length(&self, offset: usize, length: usize) -> (r: Self)
        requires
            offset + length <= self@.len(),
        ensures
            r@ == self@.subrange(offset as int, offset + length),
            self is Borrowed ==> r is Borrowed,
            self is Owned ==> r is Owned,
    {
        match self {
            LanceBuffer::Borrowed(buffer) => LanceBuffer::Borrowed(buffer_slice_with_length(buffer, offset, length)),
            LanceBuffer::Owned(buffer) => {
                let src = buffer.as_slice();
                let n = src.len();
                let mut out: Vec<u8> = Vec::with_capacity(length);
                append_range(&mut out, src, offset, offset + length);
                assert(out@ =~= self@.subrange(offset as int, offset + length));
                LanceBuffer::Owned(out)
            },
        }
    }

    /// `len` bits of `buf` from bit `offset`.  A byte-aligned offset gives a
    /// shared slice of `ceil(len / 8)` whole bytes; any other offset copies the bits.
    fn arrow_bit_slice(buf: &arrow_buffer::Buffer, offset: usize, len: usize) -> (r: arrow_buffer::Buffer)
        requires
            offset + len <= 8 * buffer_bytes(*buf).len(),
        ensures
            buffer_bytes(r) == bit_slice_le(buffer_bytes(*buf), offset as int, len as int),
    {
        if offset % 8 == 0 {
            let whole_bytes: usize = len / 8 + if len % 8 == 0 { 0 } else { 1 };
            assert(whole_bytes == bytes_for_bits(len as int));
            return buffer_slice_with_length(buf, offset / 8, whole_bytes);
        }
        buffer_bits_copy(buf, offset, len)
    }

    /// A borrowed buffer of `length` bits from bit `offset`, numbered bitwise
    /// little-endian (bit 0 is the least significant bit of byte 0).  This buffer is
    /// put into borrowed mode on the way.  A byte-aligned offset shares the region:
    /// the result is the `ceil(length / 8)` bytes from `offset / 8`, as they stand.
    /// Any other offset copies: the bits are packed from bit 0 and those of the last
    /// byte above `length` are zero.
    pub fn bit_slice_le_with_length(&mut self, offset: usize, length: usize) -> (r: Self)
        requires
            offset + length <= 8 * old(self)@.len(),
        ensures
            final(self).is_borrowed(),
            final(self)@ == old(self)@,
            r is Borrowed,
            r@ == bit_slice_le(old(self)@, offset as int, length as int),
    {
        let borrowed = self.borrow_and_clone().into_buffer();
        let sliced = LanceBuffer::arrow_bit_slice(&borrowed, offset, length);
        LanceBuffer::Borrowed(sliced)
    }

    /// Converts into a `bytes::Bytes`.  An owned buffer, or a borrowed one that is the
    /// only holder of its allocation, is handed over without a copy; a borrowed buffer
    /// whose region is shared or offset is copied.
    pub fn into_bytes(self) -> (r: bytes::Bytes)
        ensures
            bytes_content(r) == self@,
    {
        match self {
            LanceBuffer::Owned(buf) => bytes_from_vec(buf),
            LanceBuffer::Borrowed(buf) => match buffer_into_byte_vec(buf) {
                Ok(v) => bytes_from_vec(v),
                Err(back) => bytes_from_vec(copy_bytes(buffer_as_slice(&back))),
            },
        }
    }

    /// Reinterprets a vector of fixed-width values as a borrowed buffer of their
    /// native-endian (here little-endian) bytes, without a copy.
    pub fn reinterpret_vec<T: arrow_buffer::ArrowNativeType + FixedWidth>(vec: Vec<T>) -> (r: Self)
        ensures
            r is Borrowed,
            r@ == encode_values(vec@),
    {
        LanceBuffer::Borrowed(buffer_from_values(vec))
    }

    /// A shared region holding this buffer's bytes, starting at an address aligned
    /// for values of `T`, ready to be viewed as a `ScalarBuffer<T>`.  This buffer is
    /// put into borrowed mode.  Where its region is aligned the result shares it (no
    /// copy); otherwise the result is a fresh aligned copy.
    pub fn borrow_to_typed_slice<T: FixedWidth>(&mut self) -> (r: arrow_buffer::Buffer)
        requires
            T::width() > 0,
            old(self)@.len() % T::width() == 0,
        ensures
            final(self).is_borrowed(),
            final(self)@ == old(self)@,
            buffer_bytes(r) == old(self)@,
    {
        let shared = self.borrow_and_clone().into_buffer();
        if buffer_is_aligned_for::<T>(&shared) {
            shared
        } else {
            buffer_copy_of(buffer_as_slice(&shared))
        }
    }

    /// The bytes as upper-case hexadecimal, two digits per byte.
    pub fn as_hex(&self) -> (r: String)
        ensures
            r@ == hex_upper(self@),
    {
        encode_upper(self.as_ref())
    }

    /// The bytes as upper-case hexadecimal, with a space between words of
    /// `bytes_per_word` bytes.
    pub fn as_spaced_hex(&self, bytes_per_word: u32) -> (r: String)
        requires
            bytes_per_word > 0,
        ensures
            r@ == spaced_words(hex_upper(self@), 2 * bytes_per_word as nat),
    {
        let s = self.as_ref();
        let w: usize = bytes_per_word as usize;
        let ghost cw: nat = 2 * bytes_per_word as nat;
        let mut out = String::new();
        let mut i: usize = 0;
        proof {
            reveal_strlit(" ");
            assert(s@.subrange(0, s@.len() as int) =~= s@);
            assert(out@ + spaced_words(hex_upper(s@), cw) =~= spaced_words(hex_upper(s@), cw));
        }
        while s.len() - i > w
            invariant
                s@ == self@,
                w == bytes_per_word,
                cw == 2 * w,
                w > 0,
                i <= s@.len(),
                out@ + spaced_words(hex_upper(s@.subrange(i as int, s@.len() as int)), cw)
                    == spaced_words(hex_upper(self@), cw),
                " "@ == seq![' '],
            decreases s@.len() - i,
        {
            let ghost rest = s@.subrange(i as int, s@.len() as int);
            let ghost word_s = s@.subrange(i as int, (i + w) as int);
            let ghost tail = s@.subrange((i + w) as int, s@.len() as int);
            let word = encode_upper(vstd::slice::slice_subrange(s, i, i + w));
            proof {
                assert(rest =~= word_s + tail);
                lemma_hex_upper_concat(word_s, tail);
                lemma_hex_upper_len(word_s);
                lemma_hex_upper_len(rest);
                let h = hex_upper(rest);
                assert(h.subrange(0, cw as int) =~= hex_upper(word_s));
                assert(h.subrange(cw as int, h.len() as int) =~= hex_upper(tail));
            }
            out.append(word.as_str());
            out.append(" ");
            i = i + w;
        }
        let ghost rest = s@.subrange(i as int, s@.len() as int);
        let last = encode_upper(vstd::slice::slice_subrange(s, i, s.len()));
        proof {
            lemma_hex_upper_len(rest);
        }
        out.append(last.as_str());
        out
    }

    /// Consumes the buffer into a forward iterator over its bytes.  The iterator
    /// holds its own handle on a shared region; an owned buffer is switched to
    /// borrowed mode for it, without a copy.
    pub fn into_iter(self) -> (r: BorrowedBufferIter)
        ensures
            r@ == (self@, 0nat),
    {
        BorrowedBufferIter { buffer: self.into_buffer(), index: 0 }
    }
}

/// A forward iterator over the bytes of a shared region, holding its own handle on it.
pub struct BorrowedBufferIter {
    buffer: arrow_buffer::Buffer,
    index: usize,
}

impl View for BorrowedBufferIter {
    /// The bytes iterated over, and the position of the next one.
    type V = (Seq<u8>, nat);

    closed spec fn view(&self) -> (Seq<u8>, nat) {
        (buffer_bytes(self.buffer), self.index as nat)
    }
}

impl BorrowedBufferIter {
    /// The next byte, or `None` once every byte has been handed out.
    pub fn next(&mut self) -> (r: Option<u8>)
        ensures
            final(self)@.0 == old(self)@.0,
            old(self)@.1 >= old(self)@.0.len() ==> r is None && final(self)@.1 == old(self)@.1,
            old(self)@.1 < old(self)@.0.len() ==> r == Some(old(self)@.0[old(self)@.1 as int])
                && final(self)@.1 == old(self)@.1 + 1,
    {
        let bytes = buffer_as_slice(&self.buffer);
        if self.index >= bytes.len() {
            None
        } else {
            let byte = bytes[self.index];
            self.index = self.index + 1;
            Some(byte)
        }
    }
}

/// The bit slice as `bit_slice_le_with_length` gives it: whole bytes for a
/// byte-aligned offset, packed and zero-padded bits otherwise.
pub open spec fn bit_slice_le(s: Seq<u8>, offset: int, len: int) -> Seq<u8> {
    if offset % 8 == 0 {
        s.subrange(offset / 8, offset / 8 + bytes_for_bits(len))
    } else {
        bit_slice_spec(s, offset, len)
    }
}

} // verus!
