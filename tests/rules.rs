use tetris::board::{Board, CELL_COUNT, HEIGHT, WIDTH};
use tetris::rng::{seed_from_clock, Rng};
use tetris::scoring::{fall_delay_ms, level, line_clear_points};
use tetris::shape::cell_offset;

fn board_with(filled: &[(usize, usize)], tag: u8) -> Board {
    let mut cells = vec![0u8; CELL_COUNT];
    for &(col, row) in filled {
        cells[row * WIDTH + col] = tag;
    }
    Board::from_cells(cells).unwrap()
}

fn full_rows_except(rows: &[usize], gap: &[usize]) -> Vec<(usize, usize)> {
    let mut v = Vec::new();
    for &r in rows {
        for c in 0..WIDTH {
            if !gap.contains(&c) {
                v.push((c, r));
            }
        }
    }
    v
}

fn filled(b: &Board) -> usize {
    b.to_cells().iter().filter(|&&c| c != 0).count()
}

#[test]
fn shape_offsets_match_table() {
    assert_eq!(cell_offset(0, 0, 0), (0, 1));
    assert_eq!(cell_offset(0, 1, 3), (2, 3));
    assert_eq!(cell_offset(6, 3, 1), (1, 0));
    assert_eq!(cell_offset(2, 2, 3), (1, 2));
}

#[test]
fn o_piece_same_in_every_rotation() {
    for r in 0..4 {
        for k in 0..4 {
            assert_eq!(cell_offset(1, r, k), cell_offset(1, 0, k));
        }
    }
}

#[test]
fn xorshift_known_values() {
    let mut rng = Rng::new(1);
    assert_eq!(rng.next_u32(), 270369);
    assert_eq!(rng.next_u32(), 67634689);
}

#[test]
fn zero_seed_stays_zero() {
    let mut rng = Rng::new(0);
    for _ in 0..10 {
        assert_eq!(rng.next_u32(), 0);
    }
}

#[test]
fn same_seed_same_pieces() {
    let mut a = Rng::new(123456789);
    let mut b = Rng::new(123456789);
    for _ in 0..100 {
        assert_eq!(a.next_usize(7), b.next_usize(7));
    }
}

#[test]
fn next_usize_is_state_modulo() {
    let mut rng = Rng::new(1);
    assert_eq!(rng.next_usize(7), 270369 % 7);
}

#[test]
fn clock_seed_mixing() {
    assert_eq!(seed_from_clock(0), 1013904223);
    assert_eq!(seed_from_clock(1), 1015568748);
    assert_eq!(seed_from_clock(u32::MAX), 1013904223u32.wrapping_sub(1664525));
}

#[test]
fn fall_delay_by_level() {
    assert_eq!(fall_delay_ms(0), 550);
    assert_eq!(fall_delay_ms(9), 550);
    assert_eq!(fall_delay_ms(10), 510);
    assert_eq!(fall_delay_ms(109), 150);
    assert_eq!(fall_delay_ms(110), 120);
    assert_eq!(fall_delay_ms(u32::MAX), 120);
}

#[test]
fn fall_delay_never_increases() {
    let mut prev = fall_delay_ms(0);
    for lines in 0..300u32 {
        let d = fall_delay_ms(lines);
        assert!(d <= prev);
        assert!(d >= 120);
        prev = d;
    }
}

#[test]
fn level_is_lines_over_ten() {
    assert_eq!(level(0), 0);
    assert_eq!(level(19), 1);
    assert_eq!(level(20), 2);
}

#[test]
fn two_rows_at_ten_lines_award_600() {
    assert_eq!(line_clear_points(2, 10), 600);
}

#[test]
fn tetris_at_four_lines_awards_800() {
    assert_eq!(line_clear_points(4, 4), 800);
}

#[test]
fn points_table() {
    assert_eq!(line_clear_points(0, 7), 0);
    assert_eq!(line_clear_points(1, 1), 100);
    assert_eq!(line_clear_points(3, 3), 500);
    assert_eq!(line_clear_points(3, 25), 1500);
    assert_eq!(line_clear_points(4, u32::MAX), 800 * 429496730);
}

#[test]
fn new_board_is_empty() {
    let b = Board::new();
    assert_eq!(b.to_cells().len(), WIDTH * HEIGHT);
    assert_eq!(filled(&b), 0);
}

#[test]
fn from_cells_rejects_bad_grids() {
    assert!(Board::from_cells(vec![0u8; CELL_COUNT - 1]).is_none());
    assert!(Board::from_cells(vec![0u8; CELL_COUNT + 1]).is_none());
    let mut cells = vec![0u8; CELL_COUNT];
    cells[57] = 8;
    assert!(Board::from_cells(cells.clone()).is_none());
    cells[57] = 7;
    assert_eq!(Board::from_cells(cells).unwrap().cell(7, 5), 7);
}

#[test]
fn off_board_placements_collide() {
    let b = Board::new();
    // I piece, flat: cells at columns x..x+3 of row y+1.
    assert!(b.collides(0, 0, -1, 0));
    assert!(b.collides(0, 0, 7, 0));
    assert!(!b.collides(0, 0, 6, 0));
    assert!(b.collides(0, 0, 0, 19));
    assert!(!b.collides(0, 0, 0, 18));
    assert!(b.collides(0, 0, 0, -2));
    assert!(b.collides(1, 0, i32::MIN, i32::MAX));
}

#[test]
fn taken_cells_collide() {
    let b = board_with(&[(5, 10)], 3);
    // T piece, rotation 0: (1,0) (0,1) (1,1) (2,1).
    assert!(b.collides(2, 0, 4, 9));
    assert!(!b.collides(2, 0, 4, 7));
}

#[test]
fn place_writes_piece_tag() {
    let mut b = Board::new();
    b.place(3, 0, 0, 18);
    // S piece, rotation 0: (1,0) (2,0) (0,1) (1,1).
    assert_eq!(b.cell(1, 18), 4);
    assert_eq!(b.cell(2, 18), 4);
    assert_eq!(b.cell(0, 19), 4);
    assert_eq!(b.cell(1, 19), 4);
    assert_eq!(filled(&b), 4);
}

#[test]
fn clearing_compacts_rows() {
    let mut cells = full_rows_except(&[18, 19], &[]);
    cells.push((0, 17));
    let mut b = board_with(&cells, 2);
    let mut probe = b.to_cells();
    probe[16 * WIDTH + 3] = 5;
    let mut b2 = Board::from_cells(probe).unwrap();
    assert_eq!(b.clear_full_rows(), 2);
    assert_eq!(b.cell(0, 19), 2);
    assert_eq!(filled(&b), 1);
    assert_eq!(b2.clear_full_rows(), 2);
    assert_eq!(b2.cell(0, 19), 2);
    assert_eq!(b2.cell(3, 18), 5);
    assert_eq!(filled(&b2), 2);
}

#[test]
fn clearing_keeps_rows_between_full_ones() {
    let mut cells = full_rows_except(&[15, 17, 19], &[]);
    cells.push((4, 16));
    cells.push((6, 18));
    let mut b = board_with(&cells, 1);
    assert_eq!(b.clear_full_rows(), 3);
    assert_eq!(b.cell(6, 19), 1);
    assert_eq!(b.cell(4, 18), 1);
    assert_eq!(filled(&b), 2);
}

#[test]
fn clearing_nothing_changes_nothing() {
    let cells = full_rows_except(&[19], &[9]);
    let mut b = board_with(&cells, 6);
    let before = b.to_cells();
    assert_eq!(b.clear_full_rows(), 0);
    assert_eq!(b.to_cells(), before);
}
