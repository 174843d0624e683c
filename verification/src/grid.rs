//! Rows over a buffer: how many there are, and which bytes each one holds.
//!
//! A buffer of `len` bytes shown `width` bytes to a row has row `r` covering
//! the byte offsets from `r * width` up to `(r + 1) * width`, cut off at `len`.

use vstd::prelude::*;
use vstd::arithmetic::div_mod::{
    lemma_div_plus_one, lemma_div_pos_is_pos, lemma_fundamental_div_mod, lemma_mod_pos_bound,
};

verus! {

/// The number of rows: none for an empty buffer, else `len / width` rounded up.
pub open spec fn row_count(len: nat, width: nat) -> nat {
    if len == 0 {
        0
    } else {
        ((len + width - 1) / (width as int)) as nat
    }
}

/// The byte offset at which row `row` starts.
pub open spec fn row_start(row: nat, width: nat) -> nat {
    row * width
}

/// The byte offset just past the last byte of row `row`.
pub open spec fn row_end(row: nat, len: nat, width: nat) -> nat {
    if row_start(row, width) + width <= len {
        row_start(row, width) + width
    } else if row_start(row, width) <= len {
        len
    } else {
        row_start(row, width)
    }
}

/// The row that shows the byte at `offset`.
pub open spec fn row_of(offset: nat, width: nat) -> nat {
    offset / width
}

/// The highest row that can be scrolled to: the last row, or 0 without rows.
pub open spec fn last_row(len: nat, width: nat) -> nat {
    if row_count(len, width) == 0 {
        0
    } else {
        (row_count(len, width) - 1) as nat
    }
}

/// There is no row exactly when there is no byte; otherwise the row count is
/// the least number of rows of `width` bytes that hold `len` bytes.
pub proof fn lemma_row_count(len: nat, width: nat)
    requires
        width >= 1,
    ensures
        row_count(len, width) == 0 <==> len == 0,
        len > 0 ==> row_count(len, width) == (len - 1) / (width as int) + 1,
        len > 0 ==> (row_count(len, width) - 1) * width < len <= row_count(len, width) * width,
        row_count(len, width) <= len,
{
    if len > 0 {
        let x: int = len - 1;
        let d: int = width as int;
        let q: int = x / d;
        lemma_div_plus_one(x, d);
        lemma_fundamental_div_mod(x, d);
        lemma_mod_pos_bound(x, d);
        lemma_div_pos_is_pos(x, d);
        assert(d + x == len + width - 1);
        assert(row_count(len, width) == q + 1);
        assert(q * d == d * q && (q + 1) * d == q * d + d) by (nonlinear_arith);
        assert(q <= q * d) by (nonlinear_arith)
            requires
                q >= 0,
                d >= 1,
        ;
    }
}

/// The extent of a row. Every row starts inside the buffer and holds `width`
/// bytes, but for the last one, which holds the `len - row * width` bytes that
/// are left: at least one, at most `width`.
pub proof fn lemma_row_extent(len: nat, width: nat, row: nat)
    requires
        width >= 1,
        row < row_count(len, width),
    ensures
        row_start(row, width) < len,
        row_start(row, width) < row_end(row, len, width) <= len,
        row + 1 < row_count(len, width) ==> row_end(row, len, width) - row_start(row, width)
            == width,
        row + 1 == row_count(len, width) ==> row_end(row, len, width) == len,
        row + 1 == row_count(len, width) ==> 0 < len - row * width <= width,
{
    lemma_row_count(len, width);
    let count: int = row_count(len, width) as int;
    let r: int = row as int;
    let w: int = width as int;
    assert(r * w <= (count - 1) * w) by (nonlinear_arith)
        requires
            r <= count - 1,
            w >= 1,
    ;
    if row + 1 < count {
        assert((r + 1) * w <= (count - 1) * w) by (nonlinear_arith)
            requires
                r + 1 <= count - 1,
                w >= 1,
        ;
        assert((r + 1) * w == r * w + w) by (nonlinear_arith);
    } else {
        assert(count * w == r * w + w) by (nonlinear_arith)
            requires
                count == r + 1,
        ;
    }
}

/// Every byte belongs to exactly one row: the row `offset / width`, and no other.
pub proof fn lemma_row_of(len: nat, width: nat, offset: nat, row: nat)
    requires
        width >= 1,
        offset < len,
    ensures
        row_of(offset, width) < row_count(len, width),
        row_start(row, width) <= offset < row_end(row, len, width) <==> row == row_of(
            offset,
            width,
        ),
{
    lemma_row_count(len, width);
    let w: int = width as int;
    let o: int = offset as int;
    let q: int = o / w;
    let r: int = row as int;
    let count: int = row_count(len, width) as int;
    lemma_fundamental_div_mod(o, w);
    lemma_mod_pos_bound(o, w);
    lemma_div_pos_is_pos(o, w);
    assert(q * w == w * q && (q + 1) * w == q * w + w) by (nonlinear_arith);
    assert(q < count) by (nonlinear_arith)
        requires
            q * w <= o,
            o < count * w,
            w >= 1,
    ;
    assert((r + 1) * w == r * w + w) by (nonlinear_arith);
    if r < q {
        assert((r + 1) * w <= q * w) by (nonlinear_arith)
            requires
                r + 1 <= q,
                w >= 1,
        ;
    }
    if r > q {
        assert((q + 1) * w <= r * w) by (nonlinear_arith)
            requires
                q + 1 <= r,
                w >= 1,
        ;
    }
}

} // verus!
