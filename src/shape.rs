use vstd::prelude::*;

verus! {

/// Number of piece kinds: I, O, T, S, Z, J, L, in that order.
pub const PIECE_KINDS: usize = 7;

/// Number of rotation states of every piece.
pub const ROTATIONS: usize = 4;

/// Number of cells that every piece occupies.
pub const PIECE_CELLS: usize = 4;

/// The `k`-th of four cell offsets.
pub open spec fn pick_of(k: int, c0: (i8, i8), c1: (i8, i8), c2: (i8, i8), c3: (i8, i8)) -> (i8, i8) {
    if k == 0 {
        c0
    } else if k == 1 {
        c1
    } else if k == 2 {
        c2
    } else {
        c3
    }
}

/// Offset `(dx, dy)` of the `k`-th occupied cell of `piece` in rotation state
/// `rotation`, relative to the piece's anchor in its 4x4 frame.
pub open spec fn offset_of(piece: int, rotation: int, k: int) -> (i8, i8) {
    if piece == 0 {
        // I
        if rotation == 0 {
            pick_of(k, (0, 1), (1, 1), (2, 1), (3, 1))
        } else if rotation == 1 {
            pick_of(k, (2, 0), (2, 1), (2, 2), (2, 3))
        } else if rotation == 2 {
            pick_of(k, (0, 2), (1, 2), (2, 2), (3, 2))
        } else {
            pick_of(k, (1, 0), (1, 1), (1, 2), (1, 3))
        }
    } else if piece == 1 {
        // O
        pick_of(k, (1, 0), (2, 0), (1, 1), (2, 1))
    } else if piece == 2 {
        // T
        if rotation == 0 {
            pick_of(k, (1, 0), (0, 1), (1, 1), (2, 1))
        } else if rotation == 1 {
            pick_of(k, (1, 0), (1, 1), (2, 1), (1, 2))
        } else if rotation == 2 {
            pick_of(k, (0, 1), (1, 1), (2, 1), (1, 2))
        } else {
            pick_of(k, (1, 0), (0, 1), (1, 1), (1, 2))
        }
    } else if piece == 3 {
        // S
        if rotation == 0 {
            pick_of(k, (1, 0), (2, 0), (0, 1), (1, 1))
        } else if rotation == 1 {
            pick_of(k, (1, 0), (1, 1), (2, 1), (2, 2))
        } else if rotation == 2 {
            pick_of(k, (1, 1), (2, 1), (0, 2), (1, 2))
        } else {
            pick_of(k, (0, 0), (0, 1), (1, 1), (1, 2))
        }
    } else if piece == 4 {
        // Z
        if rotation == 0 {
            pick_of(k, (0, 0), (1, 0), (1, 1), (2, 1))
        } else if rotation == 1 {
            pick_of(k, (2, 0), (1, 1), (2, 1), (1, 2))
        } else if rotation == 2 {
            pick_of(k, (0, 1), (1, 1), (1, 2), (2, 2))
        } else {
            pick_of(k, (1, 0), (0, 1), (1, 1), (0, 2))
        }
    } else if piece == 5 {
        // J
        if rotation == 0 {
            pick_of(k, (0, 0), (0, 1), (1, 1), (2, 1))
        } else if rotation == 1 {
            pick_of(k, (1, 0), (2, 0), (1, 1), (1, 2))
        } else if rotation == 2 {
            pick_of(k, (0, 1), (1, 1), (2, 1), (2, 2))
        } else {
            pick_of(k, (1, 0), (1, 1), (0, 2), (1, 2))
        }
    } else {
        // L
        if rotation == 0 {
            pick_of(k, (2, 0), (0, 1), (1, 1), (2, 1))
        } else if rotation == 1 {
            pick_of(k, (1, 0), (1, 1), (1, 2), (2, 2))
        } else if rotation == 2 {
            pick_of(k, (0, 1), (1, 1), (2, 1), (0, 2))
        } else {
            pick_of(k, (0, 0), (1, 0), (1, 1), (1, 2))
        }
    }
}

fn pick(k: usize, c0: (i8, i8), c1: (i8, i8), c2: (i8, i8), c3: (i8, i8)) -> (r: (i8, i8))
    ensures
        r == pick_of(k as int, c0, c1, c2, c3),
{
    if k == 0 {
        c0
    } else if k == 1 {
        c1
    } else if k == 2 {
        c2
    } else {
        c3
    }
}

/// Offset of the `k`-th occupied cell of `piece` in rotation state `rotation`.
pub fn cell_offset(piece: usize, rotation: usize, k: usize) -> (r: (i8, i8))
    requires
        piece < PIECE_KINDS,
        rotation < ROTATIONS,
        k < PIECE_CELLS,
    ensures
        r == offset_of(piece as int, rotation as int, k as int),
        0 <= r.0 <= 3,
        0 <= r.1 <= 3,
{
    if piece == 0 {
        // I
        if rotation == 0 {
            pick(k, (0, 1), (1, 1), (2, 1), (3, 1))
        } else if rotation == 1 {
            pick(k, (2, 0), (2, 1), (2, 2), (2, 3))
        } else if rotation == 2 {
            pick(k, (0, 2), (1, 2), (2, 2), (3, 2))
        } else {
            pick(k, (1, 0), (1, 1), (1, 2), (1, 3))
        }
    } else if piece == 1 {
        // O
        pick(k, (1, 0), (2, 0), (1, 1), (2, 1))
    } else if piece == 2 {
        // T
        if rotation == 0 {
            pick(k, (1, 0), (0, 1), (1, 1), (2, 1))
        } else if rotation == 1 {
            pick(k, (1, 0), (1, 1), (2, 1), (1, 2))
        } else if rotation == 2 {
            pick(k, (0, 1), (1, 1), (2, 1), (1, 2))
        } else {
            pick(k, (1, 0), (0, 1), (1, 1), (1, 2))
        }
    } else if piece == 3 {
        // S
        if rotation == 0 {
            pick(k, (1, 0), (2, 0), (0, 1), (1, 1))
        } else if rotation == 1 {
            pick(k, (1, 0), (1, 1), (2, 1), (2, 2))
        } else if rotation == 2 {
            pick(k, (1, 1), (2, 1), (0, 2), (1, 2))
        } else {
            pick(k, (0, 0), (0, 1), (1, 1), (1, 2))
        }
    } else if piece == 4 {
        // Z
        if rotation == 0 {
            pick(k, (0, 0), (1, 0), (1, 1), (2, 1))
        } else if rotation == 1 {
            pick(k, (2, 0), (1, 1), (2, 1), (1, 2))
        } else if rotation == 2 {
            pick(k, (0, 1), (1, 1), (1, 2), (2, 2))
        } else {
            pick(k, (1, 0), (0, 1), (1, 1), (0, 2))
        }
    } else if piece == 5 {
        // J
        if rotation == 0 {
            pick(k, (0, 0), (0, 1), (1, 1), (2, 1))
        } else if rotation == 1 {
            pick(k, (1, 0), (2, 0), (1, 1), (1, 2))
        } else if rotation == 2 {
            pick(k, (0, 1), (1, 1), (2, 1), (2, 2))
        } else {
            pick(k, (1, 0), (1, 1), (0, 2), (1, 2))
        }
    } else {
        // L
        if rotation == 0 {
            pick(k, (2, 0), (0, 1), (1, 1), (2, 1))
        } else if rotation == 1 {
            pick(k, (1, 0), (1, 1), (1, 2), (2, 2))
        } else if rotation == 2 {
            pick(k, (0, 1), (1, 1), (2, 1), (0, 2))
        } else {
            pick(k, (0, 0), (1, 0), (1, 1), (1, 2))
        }
    }
}

/// Every offset of the table lies in the piece's 4x4 frame.
pub proof fn lemma_offset_in_frame(piece: int, rotation: int, k: int)
    requires
        0 <= piece < PIECE_KINDS,
        0 <= rotation < ROTATIONS,
        0 <= k < PIECE_CELLS,
    ensures
        0 <= offset_of(piece, rotation, k).0 <= 3,
        0 <= offset_of(piece, rotation, k).1 <= 3,
{
}

/// The four cells of a piece in a given rotation state are pairwise distinct.
pub proof fn lemma_offsets_distinct(piece: int, rotation: int, j: int, k: int)
    requires
        0 <= piece < PIECE_KINDS,
        0 <= rotation < ROTATIONS,
        0 <= j < PIECE_CELLS,
        0 <= k < PIECE_CELLS,
        j != k,
    ensures
        offset_of(piece, rotation, j) != offset_of(piece, rotation, k),
{
}

/// The O piece occupies the same cells in every rotation state, so rotating it
/// never changes where it stands.
pub proof fn lemma_o_piece_rotation_invariant(rotation: int, k: int)
    requires
        0 <= rotation < ROTATIONS,
        0 <= k < PIECE_CELLS,
    ensures
        offset_of(1, (rotation + 1) % 4, k) == offset_of(1, rotation, k),
{
}

} // verus!
