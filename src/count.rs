use vstd::prelude::*;

use crate::board::{
    cell_blocked, cell_pos, cleared, cleared_cell, collides_at, count_filled, full_row_count,
    index_of, kept_rows, lemma_kept_rows_shape, placed, placed_upto, row_full, valid_cells, CELL_COUNT, HEIGHT,
    WIDTH,
};
use crate::shape::{lemma_offsets_distinct, PIECE_CELLS, PIECE_KINDS, ROTATIONS};

verus! {

/// Number of non-empty cells of row `r`.
pub open spec fn row_filled(cells: Seq<u8>, r: int) -> nat {
    count_filled(cells.subrange(r * WIDTH, r * WIDTH + WIDTH))
}

/// Non-empty cells of rows `lo` to the bottom.
pub open spec fn filled_from(cells: Seq<u8>, lo: int) -> nat
    decreases HEIGHT - lo,
{
    if lo >= HEIGHT || lo < 0 {
        0
    } else {
        row_filled(cells, lo) + filled_from(cells, lo + 1)
    }
}

/// Non-empty cells of the rows listed in `rows` from position `j` on.
pub open spec fn filled_of_rows(cells: Seq<u8>, rows: Seq<int>, j: int) -> nat
    decreases rows.len() - j,
{
    if j >= rows.len() || j < 0 {
        0
    } else {
        row_filled(cells, rows[j]) + filled_of_rows(cells, rows, j + 1)
    }
}

/// Non-empty cells of the rows that are not full, from `lo` to the bottom.
pub open spec fn kept_filled(cells: Seq<u8>, lo: int) -> nat
    decreases HEIGHT - lo,
{
    if lo >= HEIGHT || lo < 0 {
        0
    } else if row_full(cells, lo) {
        kept_filled(cells, lo + 1)
    } else {
        row_filled(cells, lo) + kept_filled(cells, lo + 1)
    }
}

proof fn lemma_count_concat(a: Seq<u8>, b: Seq<u8>)
    ensures
        count_filled(a + b) == count_filled(a) + count_filled(b),
    decreases b.len(),
{
    if b.len() > 0 {
        lemma_count_concat(a, b.drop_last());
        assert((a + b).drop_last() =~= a + b.drop_last());
    } else {
        assert(a + b =~= a);
    }
}

proof fn lemma_count_update(s: Seq<u8>, i: int, v: u8)
    requires
        0 <= i < s.len(),
        s[i] == 0,
        v != 0,
    ensures
        count_filled(s.update(i, v)) == count_filled(s) + 1,
    decreases s.len(),
{
    if i == s.len() - 1 {
        assert(s.update(i, v).drop_last() =~= s.drop_last());
    } else {
        lemma_count_update(s.drop_last(), i, v);
        assert(s.update(i, v).drop_last() =~= s.drop_last().update(i, v));
    }
}

proof fn lemma_count_bounds(s: Seq<u8>)
    ensures
        (forall|i: int| 0 <= i < s.len() ==> #[trigger] s[i] == 0) ==> count_filled(s) == 0,
        (forall|i: int| 0 <= i < s.len() ==> #[trigger] s[i] != 0) ==> count_filled(s) == s.len(),
    decreases s.len(),
{
    if s.len() > 0 {
        lemma_count_bounds(s.drop_last());
    }
}

proof fn lemma_filled_from(s: Seq<u8>, lo: int)
    requires
        s.len() == CELL_COUNT,
        0 <= lo <= HEIGHT,
    ensures
        count_filled(s.subrange(lo * WIDTH, CELL_COUNT as int)) == filled_from(s, lo),
    decreases HEIGHT - lo,
{
    if lo == HEIGHT {
        assert(s.subrange(lo * WIDTH, CELL_COUNT as int) =~= Seq::<u8>::empty());
    } else {
        lemma_filled_from(s, lo + 1);
        let head = s.subrange(lo * WIDTH, lo * WIDTH + WIDTH);
        let tail = s.subrange(lo * WIDTH + WIDTH, CELL_COUNT as int);
        assert(s.subrange(lo * WIDTH, CELL_COUNT as int) =~= head + tail);
        lemma_count_concat(head, tail);
    }
}

proof fn lemma_filled_rows(s: Seq<u8>)
    requires
        s.len() == CELL_COUNT,
    ensures
        count_filled(s) == filled_from(s, 0),
{
    lemma_filled_from(s, 0);
    assert(s.subrange(0, CELL_COUNT as int) =~= s);
}

proof fn lemma_kept_filled(s: Seq<u8>, lo: int)
    requires
        s.len() == CELL_COUNT,
        0 <= lo <= HEIGHT,
    ensures
        filled_from(s, lo) == kept_filled(s, lo) + WIDTH * (HEIGHT - lo - kept_rows(s, lo).len()),
        filled_of_rows(s, kept_rows(s, lo), 0) == kept_filled(s, lo),
    decreases HEIGHT - lo,
{
    if lo < HEIGHT {
        lemma_kept_filled(s, lo + 1);
        let row = s.subrange(lo * WIDTH, lo * WIDTH + WIDTH);
        if row_full(s, lo) {
            assert forall|c: int| 0 <= c < row.len() implies #[trigger] row[c] != 0 by {
                assert(s[index_of(c, lo)] != 0);
            }
            lemma_count_bounds(row);
        } else {
            lemma_filled_of_rows_shift(s, lo, kept_rows(s, lo + 1), 0);
        }
    }
}

proof fn lemma_filled_of_rows_shift(s: Seq<u8>, r: int, rows: Seq<int>, j: int)
    requires
        0 <= j <= rows.len(),
    ensures
        filled_of_rows(s, seq![r].add(rows), j + 1) == filled_of_rows(s, rows, j),
    decreases rows.len() - j,
{
    if j < rows.len() {
        lemma_filled_of_rows_shift(s, r, rows, j + 1);
        assert((seq![r].add(rows))[j + 1] == rows[j]);
    }
}

proof fn lemma_cleared_rows(s: Seq<u8>, lo: int)
    requires
        valid_cells(s),
        0 <= lo <= HEIGHT,
    ensures
        lo >= HEIGHT - kept_rows(s, 0).len() ==> filled_from(cleared(s), lo)
            == filled_of_rows(s, kept_rows(s, 0), lo - (HEIGHT - kept_rows(s, 0).len())),
        lo < HEIGHT - kept_rows(s, 0).len() ==> filled_from(cleared(s), lo)
            == filled_from(cleared(s), HEIGHT - kept_rows(s, 0).len()),
    decreases HEIGHT - lo,
{
    let c = cleared(s);
    let kept = kept_rows(s, 0);
    let top = HEIGHT - kept.len();
    lemma_kept_rows_shape(s, 0);
    if lo < HEIGHT {
        lemma_cleared_rows(s, lo + 1);
        let row = c.subrange(lo * WIDTH, lo * WIDTH + WIDTH);
        if lo < top {
            assert forall|j: int| 0 <= j < row.len() implies #[trigger] row[j] == 0 by {
                let i = lo * WIDTH + j;
                assert(i / 10 == lo && i % 10 == j);
            }
            lemma_count_bounds(row);
        } else {
            let k = kept[lo - top];
            assert(row =~= s.subrange(k * WIDTH, k * WIDTH + WIDTH)) by {
                assert forall|j: int| 0 <= j < WIDTH implies #[trigger] row[j] == s[k * WIDTH + j] by {
                    let i = lo * WIDTH + j;
                    assert(i / 10 == lo && i % 10 == j);
                    assert(cleared_cell(s, lo, j) == s[index_of(j, k)]);
                }
            }
        }
    }
}

/// Clearing removes exactly ten non-empty cells per full row.
pub proof fn lemma_clear_count(s: Seq<u8>)
    requires
        valid_cells(s),
    ensures
        count_filled(cleared(s)) + WIDTH * full_row_count(s) == count_filled(s),
{
    lemma_kept_rows_shape(s, 0);
    lemma_filled_rows(s);
    lemma_filled_rows(cleared(s));
    lemma_kept_filled(s, 0);
    lemma_cleared_rows(s, 0);
    lemma_cleared_rows(s, HEIGHT - kept_rows(s, 0).len());
}

proof fn lemma_placed_upto(cells: Seq<u8>, piece: int, rotation: int, x: int, y: int, n: int)
    requires
        valid_cells(cells),
        0 <= piece < PIECE_KINDS,
        0 <= rotation < ROTATIONS,
        0 <= n <= PIECE_CELLS,
        !collides_at(cells, piece, rotation, x, y),
    ensures
        valid_cells(placed_upto(cells, piece, rotation, x, y, n)),
        count_filled(placed_upto(cells, piece, rotation, x, y, n)) == count_filled(cells) + n,
        forall|k: int|
            n <= k < PIECE_CELLS ==> placed_upto(cells, piece, rotation, x, y, n)[index_of(
                #[trigger] cell_pos(piece, rotation, x, y, k).0,
                cell_pos(piece, rotation, x, y, k).1,
            )] == 0,
    decreases n,
{
    if n > 0 {
        lemma_placed_upto(cells, piece, rotation, x, y, n - 1);
        let prev = placed_upto(cells, piece, rotation, x, y, n - 1);
        let (px, py) = cell_pos(piece, rotation, x, y, n - 1);
        assert(!cell_blocked(cells, piece, rotation, x, y, n - 1));
        lemma_count_update(prev, index_of(px, py), (piece + 1) as u8);
        assert forall|k: int| n <= k < PIECE_CELLS implies placed_upto(cells, piece, rotation, x, y, n)[index_of(
            #[trigger] cell_pos(piece, rotation, x, y, k).0,
            cell_pos(piece, rotation, x, y, k).1,
        )] == 0 by {
            lemma_offsets_distinct(piece, rotation, n - 1, k);
            assert(!cell_blocked(cells, piece, rotation, x, y, k));
        }
    } else {
        assert forall|k: int| 0 <= k < PIECE_CELLS implies cells[index_of(
            #[trigger] cell_pos(piece, rotation, x, y, k).0,
            cell_pos(piece, rotation, x, y, k).1,
        )] == 0 by {
            assert(!cell_blocked(cells, piece, rotation, x, y, k));
        }
    }
}

/// Writing a legally placed piece into the board keeps the grid valid and
/// adds exactly four non-empty cells.
pub proof fn lemma_place_count(cells: Seq<u8>, piece: int, rotation: int, x: int, y: int)
    requires
        valid_cells(cells),
        0 <= piece < PIECE_KINDS,
        0 <= rotation < ROTATIONS,
        !collides_at(cells, piece, rotation, x, y),
    ensures
        valid_cells(placed(cells, piece, rotation, x, y)),
        count_filled(placed(cells, piece, rotation, x, y)) == count_filled(cells) + PIECE_CELLS,
{
    lemma_placed_upto(cells, piece, rotation, x, y, PIECE_CELLS as int);
}

} // verus!
