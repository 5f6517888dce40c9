//! A diagnostic rendering of a buffer: its mode, a hexadecimal preview of its first
//! bytes, and its length.

use vstd::prelude::*;
use vstd::string::{StrSliceExecFns, StringExecFns};

use crate::buffer::LanceBuffer;
use crate::foreign::encode_upper;
use crate::hexfmt::hex_upper;

verus! {

/// The most bytes shown in a preview.
pub const PREVIEW_BYTES: usize = 10;

/// The decimal digit `d`.
pub open spec fn decimal_digit(d: nat) -> char {
    seq!['0', '1', '2', '3', '4', '5', '6', '7', '8', '9'][d as int]
}

/// `n` in decimal, without leading zeros.
pub open spec fn decimal(n: nat) -> Seq<char>
    decreases n,
{
    if n < 10 {
        seq![decimal_digit(n)]
    } else {
        decimal(n / 10) + seq![decimal_digit(n % 10)]
    }
}

/// The rendering of a buffer: its mode, `0x` and the upper-case hexadecimal of its
/// first ten bytes (`...` after them when there are more), then its byte count.
pub open spec fn debug_text(b: LanceBuffer) -> Seq<char> {
    (if b is Borrowed {
        "LanceBuffer::Borrowed(bytes=0x"@
    } else {
        "LanceBuffer::Owned(bytes=0x"@
    }) + hex_upper(b@.take(if b@.len() > 10 { 10 } else { b@.len() as int })) + (if b@.len() > 10 {
        "..."@
    } else {
        Seq::<char>::empty()
    }) + " #bytes="@ + decimal(b@.len()) + ")"@
}

/// Appends `n` in decimal to `out`.
fn append_decimal(out: &mut String, n: usize)
    ensures
        final(out)@ == old(out)@ + decimal(n as nat),
    decreases n,
{
    let digits = "0123456789";
    proof {
        reveal_strlit("0123456789");
    }
    if n >= 10 {
        append_decimal(out, n / 10);
    }
    let d: usize = n % 10;
    out.append(digits.substring_char(d, d + 1));
    proof {
        assert(digits@.subrange(d as int, d + 1) =~= seq![decimal_digit(d as nat)]);
    }
}

impl LanceBuffer {
    /// A diagnostic rendering, such as `LanceBuffer::Owned(bytes=0x0102 #bytes=2)`.
    pub fn debug_string(&self) -> (r: String)
        ensures
            r@ == debug_text(*self),
    {
        let bytes = self.as_ref();
        let shown: usize = if bytes.len() > PREVIEW_BYTES { PREVIEW_BYTES } else { bytes.len() };
        let mut out = match self {
            LanceBuffer::Borrowed(_) => String::from_str("LanceBuffer::Borrowed(bytes=0x"),
            LanceBuffer::Owned(_) => String::from_str("LanceBuffer::Owned(bytes=0x"),
        };
        let preview = encode_upper(vstd::slice::slice_subrange(bytes, 0, shown));
        proof {
            assert(bytes@.subrange(0, shown as int) =~= self@.take(shown as int));
        }
        out.append(preview.as_str());
        if bytes.len() > PREVIEW_BYTES {
            out.append("...");
        } else {
            assert(out@ + Seq::<char>::empty() =~= out@);
        }
        out.append(" #bytes=");
        append_decimal(&mut out, bytes.len());
        out.append(")");
        out
    }
}

} // verus!
