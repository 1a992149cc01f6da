use vstd::prelude::*;

use crate::shape::{cell_offset, offset_of, PIECE_CELLS, PIECE_KINDS, ROTATIONS};

verus! {

/// Number of columns of the playfield.
pub const WIDTH: usize = 10;

/// Number of rows of the playfield.
pub const HEIGHT: usize = 20;

/// Number of cells of the playfield, stored row by row.
pub const CELL_COUNT: usize = 200;

/// Whether `(px, py)` is a cell of the playfield.
pub open spec fn in_bounds(px: int, py: int) -> bool {
    0 <= px < WIDTH && 0 <= py < HEIGHT
}

/// Position of cell `(px, py)` in the row-by-row storage.
pub open spec fn index_of(px: int, py: int) -> int {
    py * WIDTH + px
}

/// A well-formed grid: the right size, and every cell empty (0) or tagged
/// with a piece kind (1 to 7).
pub open spec fn valid_cells(cells: Seq<u8>) -> bool {
    &&& cells.len() == CELL_COUNT
    &&& forall|i: int| 0 <= i < CELL_COUNT ==> #[trigger] cells[i] <= 7
}

/// Board coordinates of the `k`-th cell of `piece` anchored at `(x, y)`.
pub open spec fn cell_pos(piece: int, rotation: int, x: int, y: int, k: int) -> (int, int) {
    (x + offset_of(piece, rotation, k).0, y + offset_of(piece, rotation, k).1)
}

/// The `k`-th cell of the placement lies off the playfield or on a taken cell.
pub open spec fn cell_blocked(cells: Seq<u8>, piece: int, rotation: int, x: int, y: int, k: int) -> bool {
    let (px, py) = cell_pos(piece, rotation, x, y, k);
    !in_bounds(px, py) || cells[index_of(px, py)] != 0
}

/// The placement of `piece` at `(x, y)` in `rotation` is illegal.
pub open spec fn collides_at(cells: Seq<u8>, piece: int, rotation: int, x: int, y: int) -> bool {
    exists|k: int| 0 <= k < PIECE_CELLS && #[trigger] cell_blocked(cells, piece, rotation, x, y, k)
}

/// The grid after writing the tag of `piece` into its first `n` cells.
pub open spec fn placed_upto(cells: Seq<u8>, piece: int, rotation: int, x: int, y: int, n: int) -> Seq<u8>
    decreases n,
{
    if n <= 0 {
        cells
    } else {
        let (px, py) = cell_pos(piece, rotation, x, y, n - 1);
        placed_upto(cells, piece, rotation, x, y, n - 1).update(index_of(px, py), (piece + 1) as u8)
    }
}

/// The grid after writing the tag of `piece` into all four of its cells.
pub open spec fn placed(cells: Seq<u8>, piece: int, rotation: int, x: int, y: int) -> Seq<u8> {
    placed_upto(cells, piece, rotation, x, y, PIECE_CELLS as int)
}

/// Every cell of row `r` is taken.
pub open spec fn row_full(cells: Seq<u8>, r: int) -> bool {
    forall|c: int| 0 <= c < WIDTH ==> #[trigger] cells[index_of(c, r)] != 0
}

/// The rows from `lo` down to the bottom that are not full, top to bottom.
pub open spec fn kept_rows(cells: Seq<u8>, lo: int) -> Seq<int>
    decreases HEIGHT - lo,
{
    if lo >= HEIGHT || lo < 0 {
        Seq::empty()
    } else if row_full(cells, lo) {
        kept_rows(cells, lo + 1)
    } else {
        seq![lo].add(kept_rows(cells, lo + 1))
    }
}

/// Number of full rows of the grid.
pub open spec fn full_row_count(cells: Seq<u8>) -> int {
    HEIGHT - kept_rows(cells, 0).len()
}

/// Cell `(c, r)` of the grid once its full rows are removed: the rows that
/// are kept settle at the bottom in their order, empty rows fill the top.
pub open spec fn cleared_cell(cells: Seq<u8>, r: int, c: int) -> u8 {
    let kept = kept_rows(cells, 0);
    let top = HEIGHT - kept.len();
    if r < top {
        0
    } else {
        cells[index_of(c, kept[r - top])]
    }
}

/// The grid once its full rows are removed.
pub open spec fn cleared(cells: Seq<u8>) -> Seq<u8> {
    Seq::new(CELL_COUNT as nat, |i: int| cleared_cell(cells, i / 10, i % 10))
}

/// Number of non-empty cells.
pub open spec fn count_filled(cells: Seq<u8>) -> nat
    decreases cells.len(),
{
    if cells.len() == 0 {
        0
    } else {
        count_filled(cells.drop_last()) + if cells.last() != 0 { 1nat } else { 0nat }
    }
}

/// A placement with any of its four cells off the playfield collides.
pub proof fn lemma_off_board_collides(cells: Seq<u8>, piece: int, rotation: int, x: int, y: int, k: int)
    requires
        0 <= k < PIECE_CELLS,
        !in_bounds(cell_pos(piece, rotation, x, y, k).0, cell_pos(piece, rotation, x, y, k).1),
    ensures
        collides_at(cells, piece, rotation, x, y),
{
    assert(cell_blocked(cells, piece, rotation, x, y, k));
}

pub(crate) proof fn lemma_kept_rows_shape(cells: Seq<u8>, lo: int)
    requires
        0 <= lo <= HEIGHT,
    ensures
        kept_rows(cells, lo).len() <= HEIGHT - lo,
        forall|j: int|
            0 <= j < kept_rows(cells, lo).len() ==> lo <= #[trigger] kept_rows(cells, lo)[j] < HEIGHT
                && !row_full(cells, kept_rows(cells, lo)[j]),
    decreases HEIGHT - lo,
{
    if lo < HEIGHT {
        lemma_kept_rows_shape(cells, lo + 1);
        if !row_full(cells, lo) {
            let rest = kept_rows(cells, lo + 1);
            assert forall|j: int| 0 < j < 1 + rest.len() implies #[trigger] (seq![lo].add(rest))[j] == rest[j - 1] by {}
        }
    }
}

/// Fresh row-by-row storage with every cell empty.
fn empty_cells() -> (r: Vec<u8>)
    ensures
        r@ == Seq::new(CELL_COUNT as nat, |i: int| 0u8),
{
    let mut v: Vec<u8> = Vec::new();
    let mut i: usize = 0;
    while i < CELL_COUNT
        invariant
            i <= CELL_COUNT,
            v@ == Seq::new(i as nat, |j: int| 0u8),
        decreases CELL_COUNT - i,
    {
        v.push(0);
        i += 1;
        assert(v@ =~= Seq::new(i as nat, |j: int| 0u8));
    }
    v
}

/// Copies row `from_row` of `from` into row `to_row` of `dst`.
fn copy_row(dst: &mut Vec<u8>, to_row: usize, from: &Board, from_row: usize)
    requires
        old(dst)@.len() == CELL_COUNT,
        from.wf(),
        to_row < HEIGHT,
        from_row < HEIGHT,
    ensures
        final(dst)@.len() == CELL_COUNT,
        forall|r: int, c: int|
            0 <= r < HEIGHT && 0 <= c < WIDTH ==> final(dst)@[#[trigger] index_of(c, r)] == if r == to_row {
                from@[index_of(c, from_row as int)]
            } else {
                old(dst)@[index_of(c, r)]
            },
{
    let ghost start = dst@;
    let mut col: usize = 0;
    while col < WIDTH
        invariant
            dst@.len() == CELL_COUNT,
            from.wf(),
            to_row < HEIGHT,
            from_row < HEIGHT,
            col <= WIDTH,
            forall|r: int, c: int|
                0 <= r < HEIGHT && 0 <= c < WIDTH ==> dst@[#[trigger] index_of(c, r)] == if r == to_row && c < col {
                    from@[index_of(c, from_row as int)]
                } else {
                    start[index_of(c, r)]
                },
        decreases WIDTH - col,
    {
        let v = from.cell(col, from_row);
        dst[to_row * WIDTH + col] = v;
        col += 1;
    }
}

/// The playfield: `WIDTH x HEIGHT` cells, row by row, each empty (0) or
/// holding the tag of the piece kind that was locked there.
pub struct Board {
    cells: Vec<u8>,
}

impl View for Board {
    type V = Seq<u8>;

    closed spec fn view(&self) -> Seq<u8> {
        self.cells@
    }
}

impl Board {
    /// The board is well formed.
    pub open spec fn wf(&self) -> bool {
        valid_cells(self@)
    }

    /// An empty board.
    pub fn new() -> (r: Board)
        ensures
            r.wf(),
            r@ == Seq::new(CELL_COUNT as nat, |i: int| 0u8),
    {
        Board { cells: empty_cells() }
    }

    /// A board holding `cells`, row by row, when they form a valid grid.
    pub fn from_cells(cells: Vec<u8>) -> (r: Option<Board>)
        ensures
            r.is_some() <==> valid_cells(cells@),
            r matches Some(b) ==> b@ == cells@,
    {
        if cells.len() != CELL_COUNT {
            return None;
        }
        let mut i: usize = 0;
        while i < CELL_COUNT
            invariant
                cells@.len() == CELL_COUNT,
                i <= CELL_COUNT,
                forall|j: int| 0 <= j < i ==> #[trigger] cells@[j] <= 7,
            decreases CELL_COUNT - i,
        {
            if cells[i] > 7 {
                return None;
            }
            i += 1;
        }
        Some(Board { cells })
    }

    /// The tag held by the cell in column `col` and row `row`.
    pub fn cell(&self, col: usize, row: usize) -> (r: u8)
        requires
            self.wf(),
            col < WIDTH,
            row < HEIGHT,
        ensures
            r == self@[index_of(col as int, row as int)],
    {
        self.cells[row * WIDTH + col]
    }

    /// A copy of all cells, row by row.
    pub fn to_cells(&self) -> (r: Vec<u8>)
        ensures
            r@ == self@,
    {
        self.cells.clone()
    }

    /// Whether placing `piece` at anchor `(x, y)` in `rotation` would leave the
    /// playfield or overlap a taken cell.
    pub fn collides(&self, piece: usize, rotation: usize, x: i32, y: i32) -> (r: bool)
        requires
            self.wf(),
            piece < PIECE_KINDS,
            rotation < ROTATIONS,
        ensures
            r == collides_at(self@, piece as int, rotation as int, x as int, y as int),
    {
        let mut k: usize = 0;
        while k < PIECE_CELLS
            invariant
                self.wf(),
                piece < PIECE_KINDS,
                rotation < ROTATIONS,
                k <= PIECE_CELLS,
                forall|j: int| 0 <= j < k ==> !#[trigger] cell_blocked(self@, piece as int, rotation as int, x as int, y as int, j),
            decreases PIECE_CELLS - k,
        {
            let (dx, dy) = cell_offset(piece, rotation, k);
            let px: i64 = x as i64 + dx as i64;
            let py: i64 = y as i64 + dy as i64;
            if px < 0 || px >= WIDTH as i64 || py < 0 || py >= HEIGHT as i64 {
                assert(cell_blocked(self@, piece as int, rotation as int, x as int, y as int, k as int));
                return true;
            }
            let idx = (py as usize) * WIDTH + (px as usize);
            if self.cells[idx] != 0 {
                assert(cell_blocked(self@, piece as int, rotation as int, x as int, y as int, k as int));
                return true;
            }
            k += 1;
        }
        false
    }

    /// Writes the tag of `piece` (its kind plus one) into the four cells it
    /// covers at anchor `(x, y)` in `rotation`.
    pub fn place(&mut self, piece: usize, rotation: usize, x: i32, y: i32)
        requires
            old(self).wf(),
            piece < PIECE_KINDS,
            rotation < ROTATIONS,
            !collides_at(old(self)@, piece as int, rotation as int, x as int, y as int),
        ensures
            final(self).wf(),
            final(self)@ == placed(old(self)@, piece as int, rotation as int, x as int, y as int),
    {
        let ghost start = self@;
        let tag: u8 = (piece + 1) as u8;
        let mut k: usize = 0;
        while k < PIECE_CELLS
            invariant
                valid_cells(self@),
                valid_cells(start),
                piece < PIECE_KINDS,
                rotation < ROTATIONS,
                tag == piece + 1,
                k <= PIECE_CELLS,
                !collides_at(start, piece as int, rotation as int, x as int, y as int),
                self@ == placed_upto(start, piece as int, rotation as int, x as int, y as int, k as int),
            decreases PIECE_CELLS - k,
        {
            assert(!cell_blocked(start, piece as int, rotation as int, x as int, y as int, k as int));
            let (dx, dy) = cell_offset(piece, rotation, k);
            let px: i64 = x as i64 + dx as i64;
            let py: i64 = y as i64 + dy as i64;
            let idx = (py as usize) * WIDTH + (px as usize);
            self.cells[idx] = tag;
            k += 1;
        }
    }

    /// Whether every cell of row `row` is taken.
    pub fn row_is_full(&self, row: usize) -> (r: bool)
        requires
            self.wf(),
            row < HEIGHT,
        ensures
            r == row_full(self@, row as int),
    {
        let mut col: usize = 0;
        while col < WIDTH
            invariant
                self.wf(),
                row < HEIGHT,
                col <= WIDTH,
                forall|c: int| 0 <= c < col ==> #[trigger] self@[index_of(c, row as int)] != 0,
            decreases WIDTH - col,
        {
            if self.cells[row * WIDTH + col] == 0 {
                assert(self@[index_of(col as int, row as int)] == 0);
                return false;
            }
            col += 1;
        }
        true
    }
    /// Removes every full row at once. The other rows settle at the bottom in
    /// their order and empty rows fill the top. Returns the number of rows
    /// removed.
    pub fn clear_full_rows(&mut self) -> (r: u32)
        requires
            old(self).wf(),
        ensures
            final(self).wf(),
            final(self)@ == cleared(old(self)@),
            r as int == full_row_count(old(self)@),
    {
        let ghost s = self@;
        let mut fresh = empty_cells();
        // Rows `write..HEIGHT` of `fresh` hold the rows kept so far.
        let mut write: usize = HEIGHT;
        let mut row: usize = HEIGHT;
        while row > 0
            invariant
                self@ == s,
                valid_cells(s),
                row <= write <= HEIGHT,
                fresh@.len() == CELL_COUNT,
                write == HEIGHT - kept_rows(s, row as int).len(),
                forall|r: int, c: int|
                    0 <= r < write && 0 <= c < WIDTH ==> fresh@[#[trigger] index_of(c, r)] == 0,
                forall|r: int, c: int|
                    write <= r < HEIGHT && 0 <= c < WIDTH ==> fresh@[#[trigger] index_of(c, r)]
                        == s[index_of(c, kept_rows(s, row as int)[r - write])],
            decreases row,
        {
            row -= 1;
            proof {
                lemma_kept_rows_shape(s, row as int);
                lemma_kept_rows_shape(s, row + 1);
            }
            if !self.row_is_full(row) {
                let ghost before = fresh@;
                let ghost old_kept = kept_rows(s, row + 1);
                write -= 1;
                copy_row(&mut fresh, write, self, row);
                assert forall|r: int, c: int|
                    write <= r < HEIGHT && 0 <= c < WIDTH implies fresh@[#[trigger] index_of(c, r)]
                        == s[index_of(c, kept_rows(s, row as int)[r - write])] by {
                    if r > write {
                        assert(kept_rows(s, row as int)[r - write] == old_kept[r - write - 1]);
                        assert(fresh@[index_of(c, r)] == before[index_of(c, r)]);
                    }
                }
            }
        }
        proof {
            lemma_kept_rows_shape(s, 0);
            assert forall|i: int| 0 <= i < CELL_COUNT implies #[trigger] fresh@[i] == cleared(s)[i] by {
                let r = i / 10;
                let c = i % 10;
                assert(index_of(c, r) == i);
            }
            assert(fresh@ =~= cleared(s));
        }
        self.cells = fresh;
        proof {
            assert forall|i: int| 0 <= i < CELL_COUNT implies #[trigger] self@[i] <= 7 by {
                let r = i / 10;
                let c = i % 10;
                assert(index_of(c, r) == i);
                if r >= write {
                    let j = kept_rows(s, 0)[r - write];
                    assert(0 <= index_of(c, j) < CELL_COUNT);
                }
            }
        }
        // The rows above the topmost kept row are as many as the full rows.
        write as u32
    }
}

} // verus!
