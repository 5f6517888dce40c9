//! Fixed-width values as byte runs, least significant byte first (this library
//! targets little-endian machines, where that is the native order).

use vstd::prelude::*;

verus! {

/// A fixed-width value type, with its little-endian byte encoding.
pub trait FixedWidth: Sized {
    /// The number of bytes of a value.
    spec fn width() -> nat;

    /// The bytes of `v`, least significant first.
    spec fn le_bytes(v: Self) -> Seq<u8>;

    /// The value whose little-endian bytes are the first `width()` of `b`.
    spec fn from_le_bytes(b: Seq<u8>) -> Self;

    /// Values are at least one byte wide.
    proof fn lemma_width_positive()
        ensures
            Self::width() > 0,
    ;

    /// Decoding the encoding of a value gives the value back.
    proof fn lemma_le_round_trip(v: Self)
        ensures
            Self::width() > 0,
            Self::le_bytes(v).len() == Self::width(),
            Self::from_le_bytes(Self::le_bytes(v)) == v,
    ;
}

impl FixedWidth for u8 {
    open spec fn width() -> nat {
        1
    }

    open spec fn le_bytes(v: u8) -> Seq<u8> {
        seq![v]
    }

    open spec fn from_le_bytes(b: Seq<u8>) -> u8 {
        b[0]
    }

    proof fn lemma_width_positive() {
    }

    proof fn lemma_le_round_trip(v: u8) {
    }
}

impl FixedWidth for u16 {
    open spec fn width() -> nat {
        2
    }

    open spec fn le_bytes(v: u16) -> Seq<u8> {
        seq![(v & 0xff) as u8, ((v >> 8u16) & 0xff) as u8]
    }

    open spec fn from_le_bytes(b: Seq<u8>) -> u16 {
        (b[0] as u16) | ((b[1] as u16) << 8u16)
    }

    proof fn lemma_width_positive() {
    }

    proof fn lemma_le_round_trip(v: u16) {
        let b0 = (v & 0xff) as u8;
        let b1 = ((v >> 8u16) & 0xff) as u8;
        assert((b0 as u16) | ((b1 as u16) << 8u16) == v) by (bit_vector)
            requires
                b0 == (v & 0xff) as u8,
                b1 == ((v >> 8u16) & 0xff) as u8,
        ;
    }
}

impl FixedWidth for u32 {
    open spec fn width() -> nat {
        4
    }

    open spec fn le_bytes(v: u32) -> Seq<u8> {
        seq![
            (v & 0xff) as u8,
            ((v >> 8u32) & 0xff) as u8,
            ((v >> 16u32) & 0xff) as u8,
            ((v >> 24u32) & 0xff) as u8,
        ]
    }

    open spec fn from_le_bytes(b: Seq<u8>) -> u32 {
        (b[0] as u32) | ((b[1] as u32) << 8u32) | ((b[2] as u32) << 16u32) | ((b[3] as u32) << 24u32)
    }

    proof fn lemma_width_positive() {
    }

    proof fn lemma_le_round_trip(v: u32) {
        let b0 = (v & 0xff) as u8;
        let b1 = ((v >> 8u32) & 0xff) as u8;
        let b2 = ((v >> 16u32) & 0xff) as u8;
        let b3 = ((v >> 24u32) & 0xff) as u8;
        assert((b0 as u32) | ((b1 as u32) << 8u32) | ((b2 as u32) << 16u32) | ((b3 as u32) << 24u32) == v)
            by (bit_vector)
            requires
                b0 == (v & 0xff) as u8,
                b1 == ((v >> 8u32) & 0xff) as u8,
                b2 == ((v >> 16u32) & 0xff) as u8,
                b3 == ((v >> 24u32) & 0xff) as u8,
        ;
    }
}

impl FixedWidth for u64 {
    open spec fn width() -> nat {
        8
    }

    open spec fn le_bytes(v: u64) -> Seq<u8> {
        seq![
            (v & 0xff) as u8,
            ((v >> 8u64) & 0xff) as u8,
            ((v >> 16u64) & 0xff) as u8,
            ((v >> 24u64) & 0xff) as u8,
            ((v >> 32u64) & 0xff) as u8,
            ((v >> 40u64) & 0xff) as u8,
            ((v >> 48u64) & 0xff) as u8,
            ((v >> 56u64) & 0xff) as u8,
        ]
    }

    open spec fn from_le_bytes(b: Seq<u8>) -> u64 {
        (b[0] as u64) | ((b[1] as u64) << 8u64) | ((b[2] as u64) << 16u64) | ((b[3] as u64) << 24u64)
            | ((b[4] as u64) << 32u64) | ((b[5] as u64) << 40u64) | ((b[6] as u64) << 48u64) | ((
        b[7] as u64) << 56u64)
    }

    proof fn lemma_width_positive() {
    }

    proof fn lemma_le_round_trip(v: u64) {
        let b0 = (v & 0xff) as u8;
        let b1 = ((v >> 8u64) & 0xff) as u8;
        let b2 = ((v >> 16u64) & 0xff) as u8;
        let b3 = ((v >> 24u64) & 0xff) as u8;
        let b4 = ((v >> 32u64) & 0xff) as u8;
        let b5 = ((v >> 40u64) & 0xff) as u8;
        let b6 = ((v >> 48u64) & 0xff) as u8;
        let b7 = ((v >> 56u64) & 0xff) as u8;
        assert((b0 as u64) | ((b1 as u64) << 8u64) | ((b2 as u64) << 16u64) | ((b3 as u64) << 24u64)
            | ((b4 as u64) << 32u64) | ((b5 as u64) << 40u64) | ((b6 as u64) << 48u64) | ((b7 as u64)
            << 56u64) == v) by (bit_vector)
            requires
                b0 == (v & 0xff) as u8,
                b1 == ((v >> 8u64) & 0xff) as u8,
                b2 == ((v >> 16u64) & 0xff) as u8,
                b3 == ((v >> 24u64) & 0xff) as u8,
                b4 == ((v >> 32u64) & 0xff) as u8,
                b5 == ((v >> 40u64) & 0xff) as u8,
                b6 == ((v >> 48u64) & 0xff) as u8,
                b7 == ((v >> 56u64) & 0xff) as u8,
        ;
    }
}

/// The bytes of each value in turn.
pub open spec fn encode_values<T: FixedWidth>(v: Seq<T>) -> Seq<u8>
    decreases v.len(),
{
    if v.len() == 0 {
        Seq::empty()
    } else {
        encode_values(v.drop_last()) + T::le_bytes(v.last())
    }
}

/// A byte run read as consecutive values of `T`.
pub open spec fn decode_values<T: FixedWidth>(b: Seq<u8>) -> Seq<T> {
    Seq::new(
        b.len() / T::width(),
        |i: int| T::from_le_bytes(b.subrange(i * T::width(), i * T::width() + T::width())),
    )
}

proof fn lemma_encode_values_layout<T: FixedWidth>(v: Seq<T>)
    ensures
        encode_values(v).len() == v.len() * T::width(),
        forall|i: int|
            0 <= i < v.len() ==> encode_values(v).subrange(i * T::width(), i * T::width() + T::width())
                == T::le_bytes(#[trigger] v[i]),
    decreases v.len(),
{
    if v.len() > 0 {
        let w = T::width() as int;
        let init = v.drop_last();
        lemma_encode_values_layout(init);
        T::lemma_le_round_trip(v.last());
        let e = encode_values(v);
        let ei = encode_values(init);
        assert(e == ei + T::le_bytes(v.last()));
        assert(init.len() * w + w == v.len() * w) by (nonlinear_arith)
            requires
                init.len() + 1 == v.len(),
        ;
        assert forall|i: int| 0 <= i < v.len() implies e.subrange(i * w, i * w + w) == T::le_bytes(
            #[trigger] v[i],
        ) by {
            T::lemma_le_round_trip(v[i]);
            if i < init.len() {
                assert(i * w + w <= init.len() * w) by (nonlinear_arith)
                    requires
                        i < init.len(),
                        0 <= w,
                ;
                assert(0 <= i * w) by (nonlinear_arith)
                    requires
                        0 <= i,
                        0 <= w,
                ;
                assert(e.subrange(i * w, i * w + w) =~= ei.subrange(i * w, i * w + w));
                assert(init[i] == v[i]);
            } else {
                assert(i == init.len());
                assert(e.subrange(i * w, i * w + w) =~= T::le_bytes(v.last()));
            }
        }
    }
}

/// The encoding of `v` holds `width()` bytes for each value.
pub proof fn lemma_encode_values_len<T: FixedWidth>(v: Seq<T>)
    ensures
        encode_values(v).len() == v.len() * T::width(),
{
    lemma_encode_values_layout(v);
}

/// Reading back the encoding of a sequence of values gives the values.
pub proof fn lemma_values_round_trip<T: FixedWidth>(v: Seq<T>)
    ensures
        decode_values::<T>(encode_values(v)) == v,
{
    lemma_encode_values_layout(v);
    T::lemma_width_positive();
    let w = T::width();
    if v.len() == 0 {
        assert(v.len() * w == 0) by (nonlinear_arith)
            requires
                v.len() == 0,
        ;
        assert(decode_values::<T>(encode_values(v)) =~= v);
    } else {
        T::lemma_le_round_trip(v[0]);
        assert(v.len() * w / w == v.len()) by (nonlinear_arith)
            requires
                w > 0,
        ;
        assert forall|i: int| 0 <= i < v.len() implies decode_values::<T>(encode_values(v))[i] == v[i] by {
            T::lemma_le_round_trip(v[i]);
        }
        assert(decode_values::<T>(encode_values(v)) =~= v);
    }
}

} // verus!
