use vstd::prelude::*;

verus! {

/// A cell `(col, row)` of a `cols`-wide row-major grid with `rows` rows has a
/// flat index inside `0 .. rows * cols`.
pub proof fn lemma_grid_index(col: int, row: int, cols: int, rows: int)
    requires
        0 <= col < cols,
        0 <= row < rows,
    ensures
        0 <= row * cols + col < rows * cols,
        row * cols + col + 1 <= (row + 1) * cols,
        (row + 1) * cols <= rows * cols,
{
    assert(0 <= row * cols) by (nonlinear_arith)
        requires
            0 <= row,
            0 < cols,
    ;
    assert(row * cols + cols == (row + 1) * cols) by (nonlinear_arith);
    assert((row + 1) * cols <= rows * cols) by (nonlinear_arith)
        requires
            row + 1 <= rows,
            0 < cols,
    ;
}

/// Splitting a flat grid index back into its row and column.
pub proof fn lemma_grid_split(col: int, row: int, cols: int)
    requires
        0 <= col < cols,
        0 <= row,
    ensures
        (row * cols + col) / cols == row,
        (row * cols + col) % cols == col,
{
    vstd::arithmetic::div_mod::lemma_fundamental_div_mod_converse(row * cols + col, cols, row, col);
}

/// A flat index below `w * h` splits into a row below `h` and a column below
/// `w`.
pub proof fn lemma_flat_split(i: int, w: int, h: int)
    requires
        0 <= i < w * h,
        0 < w,
    ensures
        0 <= i / w < h,
        0 <= i % w < w,
{
    vstd::arithmetic::div_mod::lemma_fundamental_div_mod(i, w);
    let q = i / w;
    let r = i % w;
    assert(0 <= q) by (nonlinear_arith)
        requires
            i == w * q + r,
            0 <= i,
            r < w,
            0 < w,
    ;
    if q >= h {
        assert(w * q >= w * h) by (nonlinear_arith)
            requires
                q >= h,
                0 < w,
        ;
    }
}

} // verus!
