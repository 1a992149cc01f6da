use tetris::board::{Board, CELL_COUNT, HEIGHT, WIDTH};
use tetris::game::{Game, Key, Status};
use tetris::shape::cell_offset;

// Seed 7 draws an I piece first, seed 1 an O piece.
const SEED_I: u32 = 7;
const SEED_O: u32 = 1;

fn board_with(filled: &[(usize, usize)]) -> Board {
    let mut cells = vec![0u8; CELL_COUNT];
    for &(col, row) in filled {
        cells[row * WIDTH + col] = 7;
    }
    Board::from_cells(cells).unwrap()
}

fn rows_except(rows: &[usize], gap: &[usize]) -> Vec<(usize, usize)> {
    let mut v = Vec::new();
    for &r in rows {
        for c in 0..WIDTH {
            if !gap.contains(&c) {
                v.push((c, r));
            }
        }
    }
    v
}

fn filled(g: &Game) -> usize {
    g.board().to_cells().iter().filter(|&&c| c != 0).count()
}

fn piece_cells(g: &Game) -> Vec<(i32, i32)> {
    (0..4)
        .map(|k| {
            let (dx, dy) = cell_offset(g.piece(), g.rotation(), k);
            (g.x() + dx as i32, g.y() + dy as i32)
        })
        .collect()
}

#[test]
fn new_game_starts_playing() {
    let g = Game::new(SEED_I);
    assert_eq!(g.status(), Status::Playing);
    assert_eq!(g.piece(), 0);
    assert_eq!(g.next_piece(), 0);
    assert_eq!((g.x(), g.y(), g.rotation()), (3, 0, 0));
    assert_eq!((g.score(), g.lines()), (0, 0));
    assert_eq!(filled(&g), 0);
}

#[test]
fn same_seed_same_games() {
    let mut a = Game::new(99);
    let mut b = Game::new(99);
    for t in 0..40u64 {
        a.key_down(Key::HardDrop);
        b.key_down(Key::HardDrop);
        a.update(t * 16);
        b.update(t * 16);
        assert_eq!(a.piece(), b.piece());
        assert_eq!(a.next_piece(), b.next_piece());
        assert_eq!(a.board().to_cells(), b.board().to_cells());
    }
}

#[test]
fn blocked_spawn_is_game_over() {
    let g = Game::with_board(SEED_I, board_with(&[(4, 1)]));
    assert_eq!(g.status(), Status::GameOver);
}

#[test]
fn game_over_ignores_movement() {
    let mut g = Game::with_board(SEED_I, board_with(&[(4, 1)]));
    let before = g.board().to_cells();
    g.update(1000);
    g.key_down(Key::Left);
    g.key_down(Key::Rotate);
    g.key_down(Key::HardDrop);
    g.update(2000);
    g.update(5000);
    assert_eq!((g.x(), g.y(), g.rotation()), (3, 0, 0));
    assert_eq!(g.board().to_cells(), before);
    assert_eq!(g.status(), Status::GameOver);
}

#[test]
fn restart_from_game_over() {
    let mut g = Game::with_board(SEED_I, board_with(&[(4, 1), (0, 19), (9, 12)]));
    assert_eq!(g.status(), Status::GameOver);
    g.key_down(Key::Restart);
    g.update(100);
    assert_eq!(g.status(), Status::Playing);
    assert_eq!(filled(&g), 0);
    assert_eq!((g.score(), g.lines()), (0, 0));
    assert!(!g.input().restart);
}

#[test]
fn lock_on_game_over_spawn() {
    // Row 1 is taken except where the I piece stands at spawn. Locking it
    // there clears row 1 and brings the block of row 0 down into the spawn
    // position of the next piece.
    let mut cells = rows_except(&[1], &[3, 4, 5, 6]);
    cells.push((4, 0));
    let mut g = Game::with_board(SEED_I, board_with(&cells));
    assert_eq!(g.status(), Status::Playing);
    g.lock_piece();
    assert_eq!((g.lines(), g.score()), (1, 100));
    assert_eq!(g.status(), Status::GameOver);
    assert_eq!((g.x(), g.y(), g.rotation()), (3, 0, 0));
}

#[test]
fn hard_drop_rests_on_floor() {
    let mut g = Game::new(SEED_O);
    assert_eq!(g.piece(), 1);
    g.key_down(Key::HardDrop);
    g.update(10);
    assert_eq!(filled(&g), 4);
    let b = g.board();
    assert_eq!((b.cell(4, 18), b.cell(5, 18), b.cell(4, 19), b.cell(5, 19)), (2, 2, 2, 2));
    assert!(!g.input().hard_drop);
}

#[test]
fn hard_drop_rests_on_stack() {
    let mut g = Game::with_board(SEED_O, board_with(&[(5, 12)]));
    g.hard_drop();
    let b = g.board();
    assert_eq!((b.cell(4, 10), b.cell(5, 10), b.cell(4, 11), b.cell(5, 11)), (2, 2, 2, 2));
    assert_eq!(filled(&g), 5);
}

#[test]
fn hard_drop_two_rows_scores_300() {
    let mut g = Game::with_board(SEED_O, board_with(&rows_except(&[18, 19], &[4, 5])));
    g.key_down(Key::HardDrop);
    g.update(10);
    assert_eq!(g.lines(), 2);
    assert_eq!(g.score(), 300);
    assert_eq!(filled(&g), 0);
}

#[test]
fn vertical_i_tetris_scores_800() {
    let mut g = Game::with_board(SEED_I, board_with(&rows_except(&[16, 17, 18, 19], &[5])));
    g.key_down(Key::Rotate);
    g.key_down(Key::HardDrop);
    g.update(10);
    assert_eq!(g.lines(), 4);
    assert_eq!(g.score(), 800);
    assert_eq!(filled(&g), 0);
}

#[test]
fn lock_count_matches_cleared_rows() {
    let mut g = Game::with_board(SEED_O, board_with(&rows_except(&[19], &[4, 5])));
    let before = filled(&g);
    g.hard_drop();
    assert_eq!(filled(&g), before + 4 - 10);
}

#[test]
fn rotation_kicks_off_the_wall() {
    let mut g = Game::new(SEED_I);
    g.try_rotate();
    assert_eq!(g.rotation(), 1);
    // Vertical I at column x + 2; push it to the left wall.
    while g.try_move(-1, 0) {}
    assert_eq!(g.x(), -2);
    // The flat state would need columns -2..1: kicked one column right, still
    // off the board, so the rotation is dropped.
    g.try_rotate();
    assert_eq!((g.x(), g.rotation()), (-2, 1));
    assert!(!g.try_move(-1, 0));
    assert!(g.try_move(1, 0));
    assert!(g.try_move(1, 0));
    g.try_rotate();
    assert_eq!((g.x(), g.rotation()), (0, 2));
}

#[test]
fn o_piece_rotation_keeps_cells() {
    let mut g = Game::new(SEED_O);
    let before = piece_cells(&g);
    for _ in 0..4 {
        g.try_rotate();
        assert_eq!(piece_cells(&g), before);
    }
}

#[test]
fn left_moves_once_then_repeats() {
    let mut g = Game::new(SEED_O);
    g.update(1000);
    g.key_down(Key::Left);
    g.update(1010);
    assert_eq!(g.x(), 2);
    g.update(1050);
    assert_eq!(g.x(), 2);
    g.update(1101);
    assert_eq!(g.x(), 1);
    g.key_up(Key::Left);
    g.update(1300);
    assert_eq!(g.x(), 1);
}

#[test]
fn right_press_moves_right() {
    let mut g = Game::new(SEED_O);
    g.update(5);
    g.key_down(Key::Right);
    g.key_down(Key::Right);
    g.update(6);
    assert_eq!(g.x(), 4);
    assert!(!g.input().right_just);
    assert!(g.input().right);
}

#[test]
fn gravity_waits_for_delay() {
    let mut g = Game::new(SEED_O);
    g.update(1000);
    g.update(1549);
    assert_eq!(g.y(), 0);
    g.update(1550);
    assert_eq!(g.y(), 1);
    g.update(1600);
    assert_eq!(g.y(), 1);
}

#[test]
fn soft_drop_speeds_gravity() {
    let mut g = Game::new(SEED_O);
    g.update(1000);
    g.key_down(Key::Down);
    // 0.08 of 550 ms is 44 ms.
    g.update(1043);
    assert_eq!(g.y(), 0);
    g.update(1044);
    assert_eq!(g.y(), 1);
    g.update(1087);
    assert_eq!(g.y(), 1);
    g.update(1088);
    assert_eq!(g.y(), 2);
    assert_eq!(g.fall_delay_ms(), 550);
}

#[test]
fn gravity_locks_on_floor() {
    let mut g = Game::new(SEED_O);
    let mut t = 1000u64;
    g.update(t);
    for _ in 0..18 {
        t += 600;
        g.update(t);
    }
    assert_eq!(g.y(), 18);
    assert_eq!(filled(&g), 0);
    t += 600;
    g.update(t);
    assert_eq!(filled(&g), 4);
    assert_eq!(g.y(), 0);
}

#[test]
fn board_stays_in_range() {
    let mut g = Game::new(2024);
    for t in 0..3000u64 {
        if t % 7 == 0 {
            g.key_down(Key::HardDrop);
        }
        if t % 11 == 0 {
            g.key_down(Key::Rotate);
        }
        if t % 200 == 0 {
            g.key_down(Key::Restart);
        }
        g.update(t * 17);
        assert!(g.board().to_cells().iter().all(|&c| c <= 7));
        assert_eq!(g.board().to_cells().len(), WIDTH * HEIGHT);
    }
}
