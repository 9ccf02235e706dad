//! Square grids of entries: the rearrangements that matrix algebra needs and
//! that do no arithmetic themselves.
//!
//! The entries may be of any copyable type; a grid is an array of rows.

use vstd::prelude::*;

verus! {

/// The index in a grid of the row (or column) that becomes row (or column)
/// `i` once the row (or column) `removed` is taken out.
pub open spec fn skip(i: int, removed: int) -> int {
    if i < removed {
        i
    } else {
        i + 1
    }
}

/// `t` is `m` mirrored at its main diagonal.
pub open spec fn is_transpose<T, const D: usize>(t: [[T; D]; D], m: [[T; D]; D]) -> bool {
    forall|row: int, col: int| 0 <= row < D && 0 <= col < D ==> t[row][col] == m[col][row]
}

/// `s` is `m` without row `remove_row` and column `remove_col`.
pub open spec fn is_submatrix<T, const D: usize, const L: usize>(
    s: [[T; L]; L],
    m: [[T; D]; D],
    remove_row: int,
    remove_col: int,
) -> bool {
    forall|row: int, col: int|
        0 <= row < L && 0 <= col < L ==> s[row][col] == m[skip(row, remove_row)][skip(
            col,
            remove_col,
        )]
}

/// `m` has `one` on its main diagonal and `zero` everywhere else.
pub open spec fn is_identity<T, const D: usize>(m: [[T; D]; D], zero: T, one: T) -> bool {
    forall|row: int, col: int|
        0 <= row < D && 0 <= col < D ==> m[row][col] == if row == col {
            one
        } else {
            zero
        }
}

/// The identity grid over the given zero and one.
pub fn identity<T: Copy, const D: usize>(zero: T, one: T) -> (m: [[T; D]; D])
    ensures
        is_identity(m, zero, one),
{
    let mut result: [[T; D]; D] = [[zero; D]; D];
    let mut n: usize = 0;
    while n < D
        invariant
            n <= D,
            forall|row: int, col: int|
                0 <= row < D && 0 <= col < D ==> result[row][col] == if row == col && row < n {
                    one
                } else {
                    zero
                },
        decreases D - n,
    {
        let mut line = result[n];
        line[n] = one;
        result[n] = line;
        n += 1;
    }
    result
}

/// The grid mirrored at its main diagonal: rows become columns.
pub fn transpose<T: Copy, const D: usize>(m: &[[T; D]; D]) -> (t: [[T; D]; D])
    ensures
        is_transpose(t, *m),
{
    let mut result: [[T; D]; D] = *m;
    let mut row: usize = 0;
    while row < D
        invariant
            row <= D,
            forall|r: int, c: int| 0 <= r < row && 0 <= c < D ==> result[r][c] == m[c][r],
        decreases D - row,
    {
        let mut line = result[row];
        let mut col: usize = 0;
        while col < D
            invariant
                row < D,
                col <= D,
                forall|c: int| 0 <= c < col ==> line[c] == m[c][row as int],
            decreases D - col,
        {
            line[col] = m[col][row];
            col += 1;
        }
        result[row] = line;
        row += 1;
    }
    result
}

/// The grid without row `remove_row` and column `remove_col`.
pub fn get_submatrix<T: Copy, const D: usize, const L: usize>(
    m: &[[T; D]; D],
    remove_row: usize,
    remove_col: usize,
) -> (s: [[T; L]; L])
    requires
        L + 1 == D,
        remove_row < D,
        remove_col < D,
    ensures
        is_submatrix(s, *m, remove_row as int, remove_col as int),
{
    let mut result: [[T; L]; L] = [[m[0][0]; L]; L];
    let mut row: usize = 0;
    while row < L
        invariant
            L + 1 == D,
            remove_row < D,
            remove_col < D,
            row <= L,
            forall|r: int, c: int|
                0 <= r < row && 0 <= c < L ==> result[r][c] == m[skip(r, remove_row as int)][skip(
                    c,
                    remove_col as int,
                )],
        decreases L - row,
    {
        let from_row: usize = if row < remove_row {
            row
        } else {
            row + 1
        };
        let mut line = result[row];
        let mut col: usize = 0;
        while col < L
            invariant
                L + 1 == D,
                remove_col < D,
                from_row < D,
                col <= L,
                forall|c: int|
                    0 <= c < col ==> line[c] == m[from_row as int][skip(c, remove_col as int)],
            decreases L - col,
        {
            let from_col: usize = if col < remove_col {
                col
            } else {
                col + 1
            };
            line[col] = m[from_row][from_col];
            col += 1;
        }
        result[row] = line;
        row += 1;
    }
    result
}

/// Mirroring twice gives the grid back.
pub proof fn lemma_transpose_twice<T, const D: usize>(
    m: [[T; D]; D],
    t: [[T; D]; D],
    tt: [[T; D]; D],
)
    requires
        is_transpose(t, m),
        is_transpose(tt, t),
    ensures
        tt == m,
{
    assert forall|row: int| 0 <= row < D implies tt[row] == m[row] by {
        assert forall|col: int| 0 <= col < D implies tt[row][col] == m[row][col] by {
            assert(tt[row][col] == t[col][row]);
        }
        assert(tt[row] =~= m[row]);
    }
    assert(tt =~= m);
}

/// The identity is its own mirror image.
pub proof fn lemma_transpose_of_identity<T, const D: usize>(
    m: [[T; D]; D],
    t: [[T; D]; D],
    zero: T,
    one: T,
)
    requires
        is_identity(m, zero, one),
        is_transpose(t, m),
    ensures
        t == m,
{
    assert forall|row: int| 0 <= row < D implies t[row] == m[row] by {
        assert forall|col: int| 0 <= col < D implies t[row][col] == m[row][col] by {
            assert(t[row][col] == m[col][row]);
        }
        assert(t[row] =~= m[row]);
    }
    assert(t =~= m);
}

} // verus!
