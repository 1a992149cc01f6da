use vstd::prelude::*;

use crate::board::{
    cleared, collides_at, count_filled, full_row_count, in_bounds, index_of, placed, valid_cells, Board,
    CELL_COUNT, HEIGHT, WIDTH,
};
use crate::count::{lemma_clear_count, lemma_place_count};
use crate::rng::{draw_of, state_after, xorshift, Rng};
use crate::scoring::{clear_points, fall_delay_ms, fall_delay_of, line_clear_points};
use crate::shape::{lemma_offset_in_frame, offset_of, PIECE_CELLS, PIECE_KINDS, ROTATIONS};

verus! {

/// Column of the anchor of a freshly spawned piece.
pub const SPAWN_X: i32 = 3;

/// Row of the anchor of a freshly spawned piece.
pub const SPAWN_Y: i32 = 0;

/// Minimum time, in milliseconds, between two repeated sideways moves while
/// a direction is held.
pub const REPEAT_DELAY_MS: u64 = 90;

/// Whether the game is running or over.
#[derive(Clone, Copy, Debug, PartialEq, Eq, Structural)]
pub enum Status {
    Playing,
    GameOver,
}

/// A key of the game, as the host reports it.
#[derive(Clone, Copy, Debug, PartialEq, Eq, Structural)]
pub enum Key {
    Left,
    Right,
    Down,
    Rotate,
    HardDrop,
    Restart,
}

/// What the player holds and what they asked for since the last tick.
/// `left`, `right` and `down` are held keys; the other flags are set once per
/// key press and cleared by the tick that acts on them.
#[derive(Clone, Copy, Debug, PartialEq, Eq, Structural)]
pub struct InputState {
    pub left: bool,
    pub right: bool,
    pub down: bool,
    pub left_just: bool,
    pub right_just: bool,
    pub rotate: bool,
    pub hard_drop: bool,
    pub restart: bool,
}

/// No key held, nothing asked for.
pub open spec fn idle_input() -> InputState {
    InputState {
        left: false,
        right: false,
        down: false,
        left_just: false,
        right_just: false,
        rotate: false,
        hard_drop: false,
        restart: false,
    }
}

impl InputState {
    /// No key held, nothing asked for.
    pub fn idle() -> (r: InputState)
        ensures
            r == idle_input(),
    {
        InputState {
            left: false,
            right: false,
            down: false,
            left_just: false,
            right_just: false,
            rotate: false,
            hard_drop: false,
            restart: false,
        }
    }
}

/// The input after the key `key` went down.
pub open spec fn pressed(i: InputState, key: Key) -> InputState {
    match key {
        Key::Left => if i.left { i } else { InputState { left: true, left_just: true, ..i } },
        Key::Right => if i.right { i } else { InputState { right: true, right_just: true, ..i } },
        Key::Down => InputState { down: true, ..i },
        Key::Rotate => InputState { rotate: true, ..i },
        Key::HardDrop => InputState { hard_drop: true, ..i },
        Key::Restart => InputState { restart: true, ..i },
    }
}

/// The input after the key `key` went up.
pub open spec fn released(i: InputState, key: Key) -> InputState {
    match key {
        Key::Left => InputState { left: false, ..i },
        Key::Right => InputState { right: false, ..i },
        Key::Down => InputState { down: false, ..i },
        _ => i,
    }
}

/// The whole state of a game, as mathematical values.
pub struct GameView {
    pub board: Seq<u8>,
    pub piece: int,
    pub next_piece: int,
    pub x: int,
    pub y: int,
    pub rotation: int,
    pub rng: u32,
    pub input: InputState,
    pub last_time: Option<u64>,
    pub fall_accum: int,
    pub last_left: int,
    pub last_right: int,
    pub score: int,
    pub lines: int,
    pub over: bool,
}

/// A well-formed game: a valid board, pieces and rotation in range, the
/// anchor near the playfield, and while playing, an active piece that stands
/// legally.
pub open spec fn game_wf(v: GameView) -> bool {
    &&& valid_cells(v.board)
    &&& 0 <= v.piece < PIECE_KINDS
    &&& 0 <= v.next_piece < PIECE_KINDS
    &&& 0 <= v.rotation < ROTATIONS
    &&& -3 <= v.x <= 9
    &&& -3 <= v.y <= 19
    &&& 0 <= v.fall_accum <= u64::MAX
    &&& 0 <= v.last_left <= u64::MAX
    &&& 0 <= v.last_right <= u64::MAX
    &&& 0 <= v.score <= u64::MAX
    &&& 0 <= v.lines <= u32::MAX
    &&& !v.over ==> !collides_at(v.board, v.piece, v.rotation, v.x, v.y)
}

/// A board with every cell empty.
pub open spec fn empty_board() -> Seq<u8> {
    Seq::new(CELL_COUNT as nat, |i: int| 0u8)
}

/// `n` capped at the largest `u32`.
pub open spec fn cap_u32(n: int) -> int {
    if n > u32::MAX { u32::MAX as int } else { n }
}

/// `n` capped at the largest `u64`.
pub open spec fn cap_u64(n: int) -> int {
    if n > u64::MAX { u64::MAX as int } else { n }
}

/// A game built from `seed` on `board`: the first two draws give the active
/// and the next piece, and the game is over at once if the active piece
/// cannot stand at the spawn position.
pub open spec fn initial(seed: u32, board: Seq<u8>) -> GameView {
    GameView {
        board,
        piece: draw_of(seed, 0, 7) as int,
        next_piece: draw_of(seed, 1, 7) as int,
        x: SPAWN_X as int,
        y: SPAWN_Y as int,
        rotation: 0,
        rng: state_after(seed, 2),
        input: idle_input(),
        last_time: None,
        fall_accum: 0,
        last_left: 0,
        last_right: 0,
        score: 0,
        lines: 0,
        over: collides_at(board, draw_of(seed, 0, 7) as int, 0, SPAWN_X as int, SPAWN_Y as int),
    }
}

/// The game after moving the active piece by `(dx, dy)` where that is legal;
/// unchanged otherwise.
pub open spec fn moved(v: GameView, dx: int, dy: int) -> GameView {
    if collides_at(v.board, v.piece, v.rotation, v.x + dx, v.y + dy) {
        v
    } else {
        GameView { x: v.x + dx, y: v.y + dy, ..v }
    }
}

/// The game after a rotation request: the next rotation state at the anchor,
/// else one column to the right, else one column to the left; the first
/// legal one wins, and if none is legal nothing changes.
pub open spec fn rotated(v: GameView) -> GameView {
    let next = (v.rotation + 1) % 4;
    if !collides_at(v.board, v.piece, next, v.x, v.y) {
        GameView { rotation: next, ..v }
    } else if !collides_at(v.board, v.piece, next, v.x + 1, v.y) {
        GameView { x: v.x + 1, rotation: next, ..v }
    } else if !collides_at(v.board, v.piece, next, v.x - 1, v.y) {
        GameView { x: v.x - 1, rotation: next, ..v }
    } else {
        v
    }
}

/// The game after the next piece becomes active at the spawn position and a
/// new next piece is drawn; the game is over if the new piece cannot stand
/// there.
pub open spec fn spawned(v: GameView) -> GameView {
    let s = xorshift(v.rng);
    GameView {
        piece: v.next_piece,
        next_piece: (s as int) % 7,
        rng: s,
        x: SPAWN_X as int,
        y: SPAWN_Y as int,
        rotation: 0,
        over: v.over || collides_at(v.board, v.next_piece, 0, SPAWN_X as int, SPAWN_Y as int),
        ..v
    }
}

/// The game after its full rows are removed, with lines and score counted.
pub open spec fn lines_cleared(v: GameView) -> GameView {
    let n = full_row_count(v.board);
    let lines = cap_u32(v.lines + n);
    GameView {
        board: cleared(v.board),
        lines,
        score: cap_u64(v.score + clear_points(n, lines)),
        ..v
    }
}

/// The game after the active piece is written into the board, full rows are
/// removed and the next piece spawns.
pub open spec fn locked(v: GameView) -> GameView {
    spawned(lines_cleared(GameView { board: placed(v.board, v.piece, v.rotation, v.x, v.y), ..v }))
}

/// The lowest row that the anchor reaches falling from `y` without a
/// collision.
pub open spec fn drop_y(board: Seq<u8>, piece: int, rotation: int, x: int, y: int) -> int
    decreases HEIGHT - y,
{
    if y >= HEIGHT || collides_at(board, piece, rotation, x, y + 1) {
        y
    } else {
        drop_y(board, piece, rotation, x, y + 1)
    }
}

/// The game after the active piece falls as far as it can.
pub open spec fn dropped(v: GameView) -> GameView {
    GameView { y: drop_y(v.board, v.piece, v.rotation, v.x, v.y), ..v }
}

/// The game after a restart: an empty board, two fresh draws from the
/// sequencer (which is not reseeded), score, lines and timing back to zero.
pub open spec fn restarted(v: GameView) -> GameView {
    let s1 = xorshift(v.rng);
    let s2 = xorshift(s1);
    GameView {
        board: empty_board(),
        piece: (s1 as int) % 7,
        next_piece: (s2 as int) % 7,
        x: SPAWN_X as int,
        y: SPAWN_Y as int,
        rotation: 0,
        rng: s2,
        input: v.input,
        last_time: None,
        fall_accum: 0,
        last_left: 0,
        last_right: 0,
        score: 0,
        lines: 0,
        over: false,
    }
}

/// Milliseconds since the last tick; zero on the first tick, and zero if the
/// clock went backwards.
pub open spec fn elapsed(v: GameView, now: u64) -> int {
    match v.last_time {
        None => 0,
        Some(t) => if now >= t { now - t } else { 0 },
    }
}

/// Sideways handling of the left key at time `now`.
pub open spec fn left_step(v: GameView, now: u64) -> GameView {
    if v.input.left_just {
        GameView { input: InputState { left_just: false, ..v.input }, last_left: now as int, ..moved(v, -1, 0) }
    } else if v.input.left && now - v.last_left > REPEAT_DELAY_MS {
        GameView { last_left: now as int, ..moved(v, -1, 0) }
    } else {
        v
    }
}

/// Sideways handling of the right key at time `now`.
pub open spec fn right_step(v: GameView, now: u64) -> GameView {
    if v.input.right_just {
        GameView { input: InputState { right_just: false, ..v.input }, last_right: now as int, ..moved(v, 1, 0) }
    } else if v.input.right && now - v.last_right > REPEAT_DELAY_MS {
        GameView { last_right: now as int, ..moved(v, 1, 0) }
    } else {
        v
    }
}

/// The gravity interval is over: the accumulated time reaches the interval,
/// or 0.08 of it while the down key is held.
pub open spec fn gravity_due(accum: int, delay: int, down: bool) -> bool {
    if down {
        25 * accum >= 2 * delay
    } else {
        accum >= delay
    }
}

/// Gravity after `dt` more milliseconds: once the interval is over, the
/// piece moves down one row, or locks if it cannot, and the accumulator
/// restarts from zero.
pub open spec fn gravity_step(v: GameView, dt: int) -> GameView {
    let accum = v.fall_accum + dt;
    if !gravity_due(accum, fall_delay_of(v.lines), v.input.down) {
        GameView { fall_accum: accum, ..v }
    } else if !collides_at(v.board, v.piece, v.rotation, v.x, v.y + 1) {
        GameView { y: v.y + 1, fall_accum: 0, ..v }
    } else {
        GameView { fall_accum: 0, ..locked(v) }
    }
}

/// One tick of a running game at time `now`, `dt` milliseconds after the
/// previous one: rotation, then either a hard drop (which ends the tick) or
/// sideways moves followed by gravity.
pub open spec fn played(v: GameView, now: u64, dt: int) -> GameView {
    let v1 = if v.input.rotate {
        let r = rotated(v);
        GameView { input: InputState { rotate: false, ..r.input }, ..r }
    } else {
        v
    };
    if v1.input.hard_drop {
        let r = locked(dropped(v1));
        GameView { input: InputState { hard_drop: false, ..r.input }, ..r }
    } else {
        gravity_step(right_step(left_step(v1, now), now), dt)
    }
}

/// One tick at time `now`: restart if asked (and nothing else), nothing
/// while the game is over, else a tick of the running game.
pub open spec fn ticked(v: GameView, now: u64) -> GameView {
    let dt = elapsed(v, now);
    let v0 = GameView { last_time: Some(now), ..v };
    if v0.input.restart {
        let r = restarted(v0);
        GameView { input: InputState { restart: false, ..r.input }, ..r }
    } else if v0.over {
        v0
    } else {
        played(v0, now, dt)
    }
}

/// Locking the active piece changes the number of non-empty cells by four,
/// less ten for every row that the lock completes and clears.
pub proof fn lemma_lock_cell_count(v: GameView)
    requires
        game_wf(v),
        !v.over,
    ensures
        count_filled(locked(v).board) == count_filled(v.board) + PIECE_CELLS - WIDTH * full_row_count(
            placed(v.board, v.piece, v.rotation, v.x, v.y),
        ),
{
    let p = placed(v.board, v.piece, v.rotation, v.x, v.y);
    lemma_place_count(v.board, v.piece, v.rotation, v.x, v.y);
    lemma_clear_count(p);
}

/// A spawn whose piece cannot stand at the spawn position ends the game.
pub proof fn lemma_blocked_spawn_ends_game(v: GameView)
    requires
        collides_at(v.board, v.next_piece, 0, SPAWN_X as int, SPAWN_Y as int),
    ensures
        spawned(v).over,
        spawned(v).x == SPAWN_X,
        spawned(v).y == SPAWN_Y,
        spawned(v).rotation == 0,
{
}

/// Once the game is over, a tick without a restart request changes nothing
/// but the clock: board, pieces, score and pending input stay as they are.
pub proof fn lemma_game_over_is_frozen(v: GameView, now: u64)
    requires
        v.over,
        !v.input.restart,
    ensures
        ticked(v, now) == (GameView { last_time: Some(now), ..v }),
{
}

/// A tick that finds a restart request leaves a fresh game: an empty board,
/// no score, no lines, playing.
pub proof fn lemma_restart_clears(v: GameView, now: u64)
    requires
        v.input.restart,
    ensures
        ticked(v, now).board == empty_board(),
        ticked(v, now).score == 0,
        ticked(v, now).lines == 0,
        !ticked(v, now).over,
        !ticked(v, now).input.restart,
{
}

/// From a legal position, the row reached by falling is legal and the row
/// below it is not.
pub proof fn lemma_drop_rests(board: Seq<u8>, piece: int, rotation: int, x: int, y: int)
    requires
        0 <= piece < PIECE_KINDS,
        0 <= rotation < ROTATIONS,
        !collides_at(board, piece, rotation, x, y),
    ensures
        !collides_at(board, piece, rotation, x, drop_y(board, piece, rotation, x, y)),
        collides_at(board, piece, rotation, x, drop_y(board, piece, rotation, x, y) + 1),
    decreases HEIGHT - y,
{
    lemma_legal_anchor(board, piece, rotation, x, y);
    if !collides_at(board, piece, rotation, x, y + 1) {
        lemma_drop_rests(board, piece, rotation, x, y + 1);
    }
}

/// A hard drop from a legal position locks the piece where it stands legally
/// and cannot move one row further down.
pub proof fn lemma_hard_drop_rests(v: GameView)
    requires
        game_wf(v),
        !v.over,
    ensures
        !collides_at(dropped(v).board, dropped(v).piece, dropped(v).rotation, dropped(v).x, dropped(v).y),
        collides_at(dropped(v).board, dropped(v).piece, dropped(v).rotation, dropped(v).x, dropped(v).y + 1),
{
    lemma_drop_rests(v.board, v.piece, v.rotation, v.x, v.y);
}

/// A legal placement has its anchor within three cells of the playfield.
pub proof fn lemma_legal_anchor(board: Seq<u8>, piece: int, rotation: int, x: int, y: int)
    requires
        0 <= piece < PIECE_KINDS,
        0 <= rotation < ROTATIONS,
        !collides_at(board, piece, rotation, x, y),
    ensures
        -3 <= x <= 9,
        -3 <= y <= 19,
{
    lemma_offset_in_frame(piece, rotation, 0);
    assert(!crate::board::cell_blocked(board, piece, rotation, x, y, 0));
}

/// Any piece stands legally at the spawn position of an empty board.
pub proof fn lemma_spawn_fits_empty(piece: int)
    requires
        0 <= piece < PIECE_KINDS,
    ensures
        !collides_at(empty_board(), piece, 0, SPAWN_X as int, SPAWN_Y as int),
{
    assert forall|k: int| 0 <= k < PIECE_CELLS implies !#[trigger] crate::board::cell_blocked(
        empty_board(),
        piece,
        0,
        SPAWN_X as int,
        SPAWN_Y as int,
        k,
    ) by {
        lemma_offset_in_frame(piece, 0, k);
    }
}

/// A running game: the board, the active and next pieces, the sequencer,
/// the pending input, timing, score and status.
pub struct Game {
    board: Board,
    piece: usize,
    next_piece: usize,
    x: i32,
    y: i32,
    rotation: usize,
    rng: Rng,
    input: InputState,
    last_time: Option<u64>,
    fall_accum: u64,
    last_left: u64,
    last_right: u64,
    score: u64,
    lines: u32,
    over: bool,
}

impl View for Game {
    type V = GameView;

    closed spec fn view(&self) -> GameView {
        GameView {
            board: self.board@,
            piece: self.piece as int,
            next_piece: self.next_piece as int,
            x: self.x as int,
            y: self.y as int,
            rotation: self.rotation as int,
            rng: self.rng@,
            input: self.input,
            last_time: self.last_time,
            fall_accum: self.fall_accum as int,
            last_left: self.last_left as int,
            last_right: self.last_right as int,
            score: self.score as int,
            lines: self.lines as int,
            over: self.over,
        }
    }
}

impl Game {
    /// The game is well formed.
    pub open spec fn wf(&self) -> bool {
        game_wf(self@)
    }

    /// A new game on an empty board, its pieces drawn from `seed`.
    pub fn new(seed: u32) -> (r: Game)
        ensures
            r.wf(),
            r@ == initial(seed, empty_board()),
            r@.over == false,
    {
        let r = Game::with_board(seed, Board::new());
        proof {
            lemma_spawn_fits_empty(r@.piece);
        }
        r
    }

    /// A new game on `board`, its pieces drawn from `seed`. It starts over at
    /// once if the first piece cannot stand at the spawn position.
    pub fn with_board(seed: u32, board: Board) -> (r: Game)
        requires
            board.wf(),
        ensures
            r.wf(),
            r@ == initial(seed, board@),
    {
        let mut rng = Rng::new(seed);
        let piece = rng.next_usize(PIECE_KINDS);
        let next_piece = rng.next_usize(PIECE_KINDS);
        let mut game = Game {
            board,
            piece,
            next_piece,
            x: SPAWN_X,
            y: SPAWN_Y,
            rotation: 0,
            rng,
            input: InputState::idle(),
            last_time: None,
            fall_accum: 0,
            last_left: 0,
            last_right: 0,
            score: 0,
            lines: 0,
            over: false,
        };
        if game.collides(game.x, game.y, game.rotation) {
            game.over = true;
        }
        proof {
            reveal_with_fuel(state_after, 3);
            assert(state_after(seed, 1) == xorshift(seed));
            assert(state_after(seed, 2) == xorshift(xorshift(seed)));
        }
        game
    }

    /// Starts the game again: an empty board, two fresh draws from the
    /// sequencer, score, lines and timing back to zero.
    pub fn reset(&mut self)
        requires
            old(self).wf(),
        ensures
            final(self).wf(),
            final(self)@ == restarted(old(self)@),
    {
        self.board = Board::new();
        self.piece = self.rng.next_usize(PIECE_KINDS);
        self.next_piece = self.rng.next_usize(PIECE_KINDS);
        self.x = SPAWN_X;
        self.y = SPAWN_Y;
        self.rotation = 0;
        self.score = 0;
        self.lines = 0;
        self.over = false;
        self.last_time = None;
        self.fall_accum = 0;
        self.last_left = 0;
        self.last_right = 0;
        proof {
            lemma_spawn_fits_empty(self.piece as int);
        }
    }

    /// Gravity interval at the current number of cleared lines.
    pub fn fall_delay_ms(&self) -> (r: u64)
        ensures
            r as int == fall_delay_of(self@.lines),
    {
        fall_delay_ms(self.lines)
    }

    /// Whether the active piece would collide at anchor `(x, y)` in
    /// `rotation`.
    pub fn collides(&self, x: i32, y: i32, rotation: usize) -> (r: bool)
        requires
            valid_cells(self@.board),
            0 <= self@.piece < PIECE_KINDS,
            rotation < ROTATIONS,
        ensures
            r == collides_at(self@.board, self@.piece, rotation as int, x as int, y as int),
    {
        self.board.collides(self.piece, rotation, x, y)
    }

    /// Moves the active piece by `(dx, dy)` if it can stand there; returns
    /// whether it moved.
    pub fn try_move(&mut self, dx: i32, dy: i32) -> (r: bool)
        requires
            old(self).wf(),
        ensures
            final(self).wf(),
            final(self)@ == moved(old(self)@, dx as int, dy as int),
            r == !collides_at(old(self)@.board, old(self)@.piece, old(self)@.rotation, old(self)@.x + dx, old(self)@.y + dy),
    {
        let nx: i64 = self.x as i64 + dx as i64;
        let ny: i64 = self.y as i64 + dy as i64;
        if nx < -3 || nx > 9 || ny < -3 || ny > 19 {
            proof {
                if !collides_at(self@.board, self@.piece, self@.rotation, nx as int, ny as int) {
                    lemma_legal_anchor(self@.board, self@.piece, self@.rotation, nx as int, ny as int);
                }
            }
            return false;
        }
        if !self.collides(nx as i32, ny as i32, self.rotation) {
            self.x = nx as i32;
            self.y = ny as i32;
            proof {
                lemma_legal_anchor(self@.board, self@.piece, self@.rotation, nx as int, ny as int);
            }
            true
        } else {
            false
        }
    }

    /// Rotates the active piece to its next rotation state, trying the
    /// anchor, then one column right, then one column left; drops the
    /// request if none of them is legal.
    pub fn try_rotate(&mut self)
        requires
            old(self).wf(),
        ensures
            final(self).wf(),
            final(self)@ == rotated(old(self)@),
    {
        let next = (self.rotation + 1) % ROTATIONS;
        if !self.collides(self.x, self.y, next) {
            self.rotation = next;
            return;
        }
        if !self.collides(self.x + 1, self.y, next) {
            self.x += 1;
            self.rotation = next;
            proof {
                lemma_legal_anchor(self@.board, self@.piece, self@.rotation, self@.x, self@.y);
            }
            return;
        }
        if !self.collides(self.x - 1, self.y, next) {
            self.x -= 1;
            self.rotation = next;
            proof {
                lemma_legal_anchor(self@.board, self@.piece, self@.rotation, self@.x, self@.y);
            }
        }
    }
    /// Writes the active piece into the board, removes full rows and spawns
    /// the next piece.
    pub fn lock_piece(&mut self)
        requires
            old(self).wf(),
            !old(self)@.over,
        ensures
            final(self).wf(),
            final(self)@ == locked(old(self)@),
    {
        self.board.place(self.piece, self.rotation, self.x, self.y);
        self.clear_lines();
        self.spawn_next();
    }

    /// Removes the full rows of the board and counts lines and score: each
    /// clear of one to four rows awards 100, 300, 500 or 800 points times
    /// one more than the level reached.
    fn clear_lines(&mut self)
        requires
            valid_cells(old(self)@.board),
        ensures
            valid_cells(final(self)@.board),
            final(self)@ == lines_cleared(old(self)@),
    {
        let cleared = self.board.clear_full_rows();
        if cleared > 0 {
            self.lines = self.lines.saturating_add(cleared);
            let gain = line_clear_points(cleared, self.lines);
            self.score = self.score.saturating_add(gain);
        }
    }

    /// Makes the next piece active at the spawn position and draws a new
    /// next piece; the game is over if the new piece cannot stand there.
    fn spawn_next(&mut self)
        requires
            valid_cells(old(self)@.board),
            0 <= old(self)@.next_piece < PIECE_KINDS,
        ensures
            final(self)@ == spawned(old(self)@),
    {
        self.piece = self.next_piece;
        self.next_piece = self.rng.next_usize(PIECE_KINDS);
        self.x = SPAWN_X;
        self.y = SPAWN_Y;
        self.rotation = 0;
        if self.collides(self.x, self.y, self.rotation) {
            self.over = true;
        }
    }

    /// Lets the active piece fall as far as it can, then locks it.
    pub fn hard_drop(&mut self)
        requires
            old(self).wf(),
            !old(self)@.over,
        ensures
            final(self).wf(),
            final(self)@ == locked(dropped(old(self)@)),
    {
        let ghost start = self@;
        let mut moving = true;
        while moving
            invariant
                self.wf(),
                !self@.over,
                self@ == (GameView { y: self@.y, ..start }),
                moving ==> drop_y(start.board, start.piece, start.rotation, start.x, self@.y)
                    == drop_y(start.board, start.piece, start.rotation, start.x, start.y),
                !moving ==> self@.y == drop_y(start.board, start.piece, start.rotation, start.x, start.y),
            decreases HEIGHT - self@.y + if moving { 1int } else { 0int },
        {
            moving = self.try_move(0, 1);
        }
        self.lock_piece();
    }

    /// Advances the game to time `now`, in milliseconds, acting on the
    /// pending input: restart, rotation, hard drop, sideways moves with
    /// repeat, then gravity.
    pub fn update(&mut self, now: u64)
        requires
            old(self).wf(),
        ensures
            final(self).wf(),
            final(self)@ == ticked(old(self)@, now),
    {
        let dt: u64 = match self.last_time {
            None => 0,
            Some(t) => if now >= t { now - t } else { 0 },
        };
        self.last_time = Some(now);

        if self.input.restart {
            self.reset();
            self.input.restart = false;
            return;
        }
        if self.over {
            return;
        }

        self.play(now, dt);
    }

    /// One tick of the running game.
    fn play(&mut self, now: u64, dt: u64)
        requires
            old(self).wf(),
            !old(self)@.over,
        ensures
            final(self).wf(),
            final(self)@ == played(old(self)@, now, dt as int),
    {
        if self.input.rotate {
            self.try_rotate();
            self.input.rotate = false;
        }

        if self.input.hard_drop {
            self.hard_drop();
            self.input.hard_drop = false;
            return;
        }

        self.move_sideways(now);
        self.apply_gravity(dt);
    }

    /// Sideways moves: each direction moves once when it was just pressed,
    /// and again every time more than the repeat delay has passed while it
    /// is held.
    fn move_sideways(&mut self, now: u64)
        requires
            old(self).wf(),
            !old(self)@.over,
        ensures
            final(self).wf(),
            !final(self)@.over,
            final(self)@ == right_step(left_step(old(self)@, now), now),
    {
        if self.input.left_just {
            self.try_move(-1, 0);
            self.input.left_just = false;
            self.last_left = now;
        } else if self.input.left && now > self.last_left && now - self.last_left > REPEAT_DELAY_MS {
            self.try_move(-1, 0);
            self.last_left = now;
        }

        if self.input.right_just {
            self.try_move(1, 0);
            self.input.right_just = false;
            self.last_right = now;
        } else if self.input.right && now > self.last_right && now - self.last_right > REPEAT_DELAY_MS {
            self.try_move(1, 0);
            self.last_right = now;
        }

    }

    /// Gravity after `dt` more milliseconds.
    fn apply_gravity(&mut self, dt: u64)
        requires
            old(self).wf(),
            !old(self)@.over,
        ensures
            final(self).wf(),
            final(self)@ == gravity_step(old(self)@, dt as int),
    {
        let delay = self.fall_delay_ms();
        // While down is held the interval shrinks to 0.08 of itself: the
        // smallest whole number of milliseconds at or above `2 * delay / 25`.
        let threshold: u64 = if self.input.down { (2 * delay + 24) / 25 } else { delay };
        let accum = self.fall_accum.saturating_add(dt);
        let ghost sum = self@.fall_accum + dt;
        proof {
            assert(gravity_due(sum, delay as int, self@.input.down) <==> sum >= threshold) by (nonlinear_arith)
                requires
                    sum >= 0,
                    delay <= 550,
                    self@.input.down ==> threshold == (2 * delay + 24) / 25,
                    !self@.input.down ==> threshold == delay,
            {
            }
        }
        if accum >= threshold {
            if !self.try_move(0, 1) {
                self.lock_piece();
            }
            self.fall_accum = 0;
        } else {
            self.fall_accum = accum;
        }
    }

    /// Records that `key` went down. A direction that was not held yet also
    /// asks for one immediate move.
    pub fn key_down(&mut self, key: Key)
        requires
            old(self).wf(),
        ensures
            final(self).wf(),
            final(self)@ == (GameView { input: pressed(old(self)@.input, key), ..old(self)@ }),
    {
        match key {
            Key::Left => {
                if !self.input.left {
                    self.input.left = true;
                    self.input.left_just = true;
                }
            },
            Key::Right => {
                if !self.input.right {
                    self.input.right = true;
                    self.input.right_just = true;
                }
            },
            Key::Down => {
                self.input.down = true;
            },
            Key::Rotate => {
                self.input.rotate = true;
            },
            Key::HardDrop => {
                self.input.hard_drop = true;
            },
            Key::Restart => {
                self.input.restart = true;
            },
        }
    }

    /// Records that `key` went up.
    pub fn key_up(&mut self, key: Key)
        requires
            old(self).wf(),
        ensures
            final(self).wf(),
            final(self)@ == (GameView { input: released(old(self)@.input, key), ..old(self)@ }),
    {
        match key {
            Key::Left => {
                self.input.left = false;
            },
            Key::Right => {
                self.input.right = false;
            },
            Key::Down => {
                self.input.down = false;
            },
            _ => {},
        }
    }

    /// The board.
    pub fn board(&self) -> (r: &Board)
        ensures
            r@ == self@.board,
    {
        &self.board
    }

    /// Kind of the active piece.
    pub fn piece(&self) -> (r: usize)
        ensures
            r == self@.piece,
    {
        self.piece
    }

    /// Kind of the next piece.
    pub fn next_piece(&self) -> (r: usize)
        ensures
            r == self@.next_piece,
    {
        self.next_piece
    }

    /// Column of the active piece's anchor.
    pub fn x(&self) -> (r: i32)
        ensures
            r == self@.x,
    {
        self.x
    }

    /// Row of the active piece's anchor.
    pub fn y(&self) -> (r: i32)
        ensures
            r == self@.y,
    {
        self.y
    }

    /// Rotation state of the active piece.
    pub fn rotation(&self) -> (r: usize)
        ensures
            r == self@.rotation,
    {
        self.rotation
    }

    /// The score.
    pub fn score(&self) -> (r: u64)
        ensures
            r == self@.score,
    {
        self.score
    }

    /// The number of cleared lines.
    pub fn lines(&self) -> (r: u32)
        ensures
            r == self@.lines,
    {
        self.lines
    }

    /// The pending input.
    pub fn input(&self) -> (r: InputState)
        ensures
            r == self@.input,
    {
        self.input
    }

    /// Whether the game is running or over.
    pub fn status(&self) -> (r: Status)
        ensures
            r == (if self@.over { Status::GameOver } else { Status::Playing }),
    {
        if self.over {
            Status::GameOver
        } else {
            Status::Playing
        }
    }
}

} // verus!
