//! Upper-case hexadecimal rendering of byte runs.

use vstd::prelude::*;

verus! {

/// The upper-case hexadecimal digit of a nibble.
pub open spec fn hex_digit(d: int) -> char {
    seq!['0', '1', '2', '3', '4', '5', '6', '7', '8', '9', 'A', 'B', 'C', 'D', 'E', 'F'][d]
}

/// Two upper-case digits per byte, high nibble first.
pub open spec fn hex_upper(b: Seq<u8>) -> Seq<char>
    decreases b.len(),
{
    if b.len() == 0 {
        Seq::empty()
    } else {
        seq![hex_digit(b[0] as int / 16), hex_digit(b[0] as int % 16)] + hex_upper(b.drop_first())
    }
}

/// `h` cut into words of `w` characters, one space between words.
pub open spec fn spaced_words(h: Seq<char>, w: nat) -> Seq<char>
    decreases h.len(),
{
    if w == 0 || h.len() <= w {
        h
    } else {
        h.subrange(0, w as int) + seq![' '] + spaced_words(h.subrange(w as int, h.len() as int), w)
    }
}

pub proof fn lemma_hex_upper_len(b: Seq<u8>)
    ensures
        hex_upper(b).len() == 2 * b.len(),
    decreases b.len(),
{
    if b.len() > 0 {
        lemma_hex_upper_len(b.drop_first());
    }
}

/// Rendering a concatenation renders each part in turn.
pub proof fn lemma_hex_upper_concat(a: Seq<u8>, b: Seq<u8>)
    ensures
        hex_upper(a + b) == hex_upper(a) + hex_upper(b),
    decreases a.len(),
{
    if a.len() == 0 {
        assert(a + b =~= b);
    } else {
        assert((a + b).drop_first() =~= a.drop_first() + b);
        lemma_hex_upper_concat(a.drop_first(), b);
        assert(hex_upper(a + b) =~= hex_upper(a) + hex_upper(b));
    }
}

} // verus!
