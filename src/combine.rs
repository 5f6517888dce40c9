//! Combining buffers: straight concatenation and row-major interleaving ("zip").

use vstd::prelude::*;

use crate::buffer::{append_range, BufferError, LanceBuffer};

verus! {

/// The bytes of each buffer in turn.
pub open spec fn concat_views(bufs: Seq<LanceBuffer>) -> Seq<u8>
    decreases bufs.len(),
{
    if bufs.len() == 0 {
        Seq::empty()
    } else {
        concat_views(bufs.drop_last()) + bufs.last()@
    }
}

/// Bytes per value of a column given with its bits per value.
pub open spec fn column_width(c: (LanceBuffer, u64)) -> int {
    (c.1 / 8) as int
}

/// Row `r` of an interleave over the first `m` columns: the `r`-th value of each
/// column in turn.
pub open spec fn zip_row(cols: Seq<(LanceBuffer, u64)>, r: int, m: int) -> Seq<u8>
    decreases m,
{
    if m <= 0 {
        Seq::empty()
    } else {
        let w = column_width(cols[m - 1]);
        zip_row(cols, r, m - 1) + cols[m - 1].0@.subrange(r * w, r * w + w)
    }
}

/// The first `n` rows of an interleave of all the columns.
pub open spec fn zip_rows(cols: Seq<(LanceBuffer, u64)>, n: int) -> Seq<u8>
    decreases n,
{
    if n <= 0 {
        Seq::empty()
    } else {
        zip_rows(cols, n - 1) + zip_row(cols, n - 1, cols.len() as int)
    }
}

/// Every column's values are a whole number of bytes wide.
pub open spec fn whole_byte_widths(cols: Seq<(LanceBuffer, u64)>) -> bool {
    forall|i: int| 0 <= i < cols.len() ==> #[trigger] cols[i].1 % 8 == 0
}

/// The sum of the columns' widths in bytes.
pub open spec fn row_width(cols: Seq<(LanceBuffer, u64)>) -> int
    decreases cols.len(),
{
    if cols.len() == 0 {
        0
    } else {
        row_width(cols.drop_last()) + column_width(cols.last())
    }
}

/// Concatenating two lists of buffers concatenates their bytes.
pub proof fn lemma_concat_views_append(a: Seq<LanceBuffer>, b: Seq<LanceBuffer>)
    ensures
        concat_views(a + b) == concat_views(a) + concat_views(b),
    decreases b.len(),
{
    if b.len() == 0 {
        assert(a + b =~= a);
        assert(concat_views(a) + concat_views(b) =~= concat_views(a));
    } else {
        assert((a + b).drop_last() =~= a + b.drop_last());
        lemma_concat_views_append(a, b.drop_last());
        assert(concat_views(a + b) =~= concat_views(a) + concat_views(b));
    }
}

/// Concatenation is associative on bytes, and a single buffer concatenates to its
/// own bytes.
pub proof fn lemma_concat_laws(x: LanceBuffer, a: Seq<LanceBuffer>, b: Seq<LanceBuffer>, c: Seq<LanceBuffer>)
    ensures
        concat_views(seq![x]) == x@,
        concat_views(a + b + c) == concat_views(a) + concat_views(b) + concat_views(c),
        concat_views(a + (b + c)) == concat_views(a + b + c),
{
    assert(seq![x].drop_last() =~= Seq::<LanceBuffer>::empty());
    assert(concat_views(Seq::<LanceBuffer>::empty()) == Seq::<u8>::empty());
    assert(concat_views(seq![x]) == concat_views(seq![x].drop_last()) + seq![x].last()@);
    assert(Seq::<u8>::empty() + x@ =~= x@);
    lemma_concat_views_append(a + b, c);
    lemma_concat_views_append(a, b);
    assert(a + (b + c) =~= a + b + c);
}

/// The rows of an interleave are each as wide as the sum of the columns' widths.
pub proof fn lemma_zip_row_len(cols: Seq<(LanceBuffer, u64)>, r: int, m: int)
    requires
        0 <= m <= cols.len(),
        0 <= r,
        forall|i: int| 0 <= i < m ==> (r + 1) * column_width(#[trigger] cols[i]) <= cols[i].0@.len(),
    ensures
        zip_row(cols, r, m).len() == row_width(cols.subrange(0, m)),
    decreases m,
{
    if m > 0 {
        lemma_zip_row_len(cols, r, m - 1);
        assert(cols.subrange(0, m).drop_last() =~= cols.subrange(0, m - 1));
        let w = column_width(cols[m - 1]);
        assert(0 <= r * w) by (nonlinear_arith)
            requires
                0 <= r,
                0 <= w,
        ;
        assert(r * w + w == (r + 1) * w) by (nonlinear_arith);
    }
}

/// An interleave of `n` rows holds `n` times the row width in bytes.
pub proof fn lemma_zip_len(cols: Seq<(LanceBuffer, u64)>, n: int)
    requires
        0 <= n,
        forall|i: int| 0 <= i < cols.len() ==> n * column_width(#[trigger] cols[i]) <= cols[i].0@.len(),
    ensures
        zip_rows(cols, n).len() == n * row_width(cols),
    decreases n,
{
    if n > 0 {
        assert forall|i: int| 0 <= i < cols.len() implies (n - 1) * column_width(#[trigger] cols[i]) <= cols[i].0@.len() by {
            let w = column_width(cols[i]);
            assert((n - 1) * w <= n * w) by (nonlinear_arith)
                requires
                    0 <= w,
            ;
        }
        lemma_zip_len(cols, n - 1);
        assert forall|i: int| 0 <= i < cols.len() implies ((n - 1) + 1) * column_width(#[trigger] cols[i]) <= cols[i].0@.len() by {
            assert((n - 1) + 1 == n);
        }
        lemma_zip_row_len(cols, n - 1, cols.len() as int);
        assert(cols.subrange(0, cols.len() as int) =~= cols);
        assert(zip_rows(cols, n) == zip_rows(cols, n - 1) + zip_row(cols, n - 1, cols.len() as int));
        assert((n - 1) * row_width(cols) + row_width(cols) == n * row_width(cols)) by (nonlinear_arith);
    } else {
        assert(n * row_width(cols) == 0) by (nonlinear_arith)
            requires
                n == 0,
        ;
    }
}

impl LanceBuffer {
    /// An owned buffer holding the bytes of each buffer in turn; always copies.
    pub fn concat(buffers: &[Self]) -> (r: Self)
        ensures
            r is Owned,
            r@ == concat_views(buffers@),
    {
        let mut data: Vec<u8> = Vec::new();
        let mut i: usize = 0;
        while i < buffers.len()
            invariant
                i <= buffers@.len(),
                data@ == concat_views(buffers@.subrange(0, i as int)),
            decreases buffers@.len() - i,
        {
            let bytes = buffers[i].as_ref();
            append_range(&mut data, bytes, 0, bytes.len());
            assert(buffers@.subrange(0, i + 1).drop_last() =~= buffers@.subrange(0, i as int));
            assert(bytes@.subrange(0, bytes@.len() as int) =~= bytes@);
            i = i + 1;
        }
        assert(buffers@.subrange(0, i as int) =~= buffers@);
        LanceBuffer::Owned(data)
    }

    /// Concatenates buffers, consuming them.  A single buffer is returned as it is,
    /// in its own mode and without a copy; otherwise the result is a fresh owned
    /// buffer.
    pub fn concat_into_one(buffers: Vec<Self>) -> (r: Self)
        ensures
            r@ == concat_views(buffers@),
            buffers@.len() == 1 ==> r == buffers@[0],
            buffers@.len() != 1 ==> r is Owned,
    {
        if buffers.len() == 1 {
            let ghost orig = buffers@;
            let mut buffers = buffers;
            let only = buffers.pop();
            proof {
                assert(orig.drop_last() =~= Seq::<LanceBuffer>::empty());
                assert(concat_views(Seq::<LanceBuffer>::empty()) == Seq::<u8>::empty());
                assert(concat_views(orig) == concat_views(orig.drop_last()) + orig.last()@);
            }
            return match only {
                Some(b) => {
                    assert(Seq::<u8>::empty() + b@ =~= b@);
                    b
                },
                None => LanceBuffer::empty(),
            };
        }
        LanceBuffer::concat(buffers.as_slice())
    }

    /// Interleaves columns of fixed-width values into one row-major owned buffer:
    /// for each of `num_values` rows, the row's value from each column in turn, each
    /// column's value being its bits per value over 8 bytes wide.  Fails on the first
    /// column whose bits per value are not a whole number of bytes.
    pub fn zip_into_one(buffers: Vec<(Self, u64)>, num_values: u64) -> (r: Result<Self, BufferError>)
        requires
            forall|i: int|
                0 <= i < buffers@.len() && buffers@[i].1 % 8 == 0 ==> num_values * column_width(
                    #[trigger] buffers@[i],
                ) <= buffers@[i].0@.len(),
        ensures
            match r {
                Ok(z) => whole_byte_widths(buffers@) && z is Owned && z@ == zip_rows(buffers@, num_values as int)
                    && z@.len() == num_values * row_width(buffers@),
                Err(e) => exists|i: int|
                    0 <= i < buffers@.len() && buffers@[i].1 % 8 != 0 && (forall|j: int|
                        0 <= j < i ==> buffers@[j].1 % 8 == 0) && e == (BufferError::UnsupportedBitWidth {
                        bits_per_value: buffers@[i].1,
                    }),
            },
    {
        let mut widths: Vec<u64> = Vec::new();
        let mut i: usize = 0;
        while i < buffers.len()
            invariant
                i <= buffers@.len(),
                widths@.len() == i,
                forall|j: int| 0 <= j < i ==> #[trigger] buffers@[j].1 % 8 == 0,
                forall|j: int| 0 <= j < i ==> #[trigger] widths@[j] == buffers@[j].1 / 8,
            decreases buffers@.len() - i,
        {
            let bits = buffers[i].1;
            if bits % 8 != 0 {
                return Err(BufferError::UnsupportedBitWidth { bits_per_value: bits });
            }
            widths.push(bits / 8);
            i = i + 1;
        }
        let mut zipped: Vec<u8> = Vec::new();
        let mut row: u64 = 0;
        while row < num_values
            invariant
                row <= num_values,
                widths@.len() == buffers@.len(),
                whole_byte_widths(buffers@),
                forall|j: int| 0 <= j < buffers@.len() ==> #[trigger] widths@[j] == buffers@[j].1 / 8,
                forall|j: int|
                    0 <= j < buffers@.len() ==> num_values * column_width(#[trigger] buffers@[j]) <= buffers@[j].0@.len(),
                zipped@ == zip_rows(buffers@, row as int),
            decreases num_values - row,
        {
            let mut m: usize = 0;
            while m < buffers.len()
                invariant
                    row < num_values,
                    m <= buffers@.len(),
                    widths@.len() == buffers@.len(),
                    whole_byte_widths(buffers@),
                    forall|j: int| 0 <= j < buffers@.len() ==> #[trigger] widths@[j] == buffers@[j].1 / 8,
                    forall|j: int|
                        0 <= j < buffers@.len() ==> num_values * column_width(#[trigger] buffers@[j]) <= buffers@[j].0@.len(),
                    zipped@ == zip_rows(buffers@, row as int) + zip_row(buffers@, row as int, m as int),
                decreases buffers@.len() - m,
            {
                let w = widths[m];
                let col = buffers[m].0.as_ref();
                let col_len = col.len();
                proof {
                    let cw = column_width(buffers@[m as int]);
                    assert(cw == w);
                    assert(num_values * cw <= col@.len());
                    assert(row * w + w <= num_values * w) by (nonlinear_arith)
                        requires
                            row < num_values,
                    ;
                    assert(0 <= row * w) by (nonlinear_arith);
                }
                let start: u64 = row * w;
                let end: u64 = start + w;
                append_range(&mut zipped, col, start as usize, end as usize);
                m = m + 1;
            }
            row = row + 1;
        }
        proof {
            lemma_zip_len(buffers@, num_values as int);
        }
        Ok(LanceBuffer::Owned(zipped))
    }
}

} // verus!
