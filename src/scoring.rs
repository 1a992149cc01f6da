use vstd::prelude::*;

verus! {

/// Milliseconds between two gravity steps at the slowest level.
pub const BASE_FALL_DELAY_MS: u64 = 550;

/// The shortest gravity interval, reached at level 11.
pub const MIN_FALL_DELAY_MS: u64 = 120;

/// Level reached after `lines` cleared lines.
pub open spec fn level_of(lines: int) -> int {
    lines / 10
}

/// Gravity interval, in milliseconds, after `lines` cleared lines.
pub open spec fn fall_delay_of(lines: int) -> int {
    let base = 550 - level_of(lines) * 40;
    if base > 120 { base } else { 120 }
}

/// Level reached after `lines` cleared lines: one level per ten lines.
pub fn level(lines: u32) -> (r: u32)
    ensures
        r as int == level_of(lines as int),
{
    lines / 10
}

/// Gravity interval for the given number of cleared lines: 550 ms, less 40 ms
/// per level, never below 120 ms.
pub fn fall_delay_ms(lines: u32) -> (r: u64)
    ensures
        r as int == fall_delay_of(lines as int),
{
    let lv = level(lines) as u64;
    if lv >= 11 {
        MIN_FALL_DELAY_MS
    } else {
        BASE_FALL_DELAY_MS - lv * 40
    }
}

/// Points for a clear of `cleared` rows before the level multiplier.
pub open spec fn base_points(cleared: int) -> int {
    if cleared == 1 {
        100
    } else if cleared == 2 {
        300
    } else if cleared == 3 {
        500
    } else {
        800
    }
}

/// Points awarded for clearing `cleared` rows at once, where `lines_after` is
/// the total of cleared lines including these: the base points times one
/// more than the level reached. Clearing no row awards nothing.
pub open spec fn clear_points(cleared: int, lines_after: int) -> int {
    if cleared <= 0 {
        0
    } else {
        base_points(cleared) * (level_of(lines_after) + 1)
    }
}

/// Points awarded for clearing `cleared` rows at once, with `lines_after`
/// the total of cleared lines once these are counted.
pub fn line_clear_points(cleared: u32, lines_after: u32) -> (r: u64)
    ensures
        r as int == clear_points(cleared as int, lines_after as int),
{
    if cleared == 0 {
        return 0;
    }
    let base: u64 = if cleared == 1 {
        100
    } else if cleared == 2 {
        300
    } else if cleared == 3 {
        500
    } else {
        800
    };
    let multiplier: u64 = level(lines_after) as u64 + 1;
    assert(base * multiplier <= 800 * 429496730) by (nonlinear_arith)
        requires
            base <= 800,
            multiplier <= 429496730,
    {
    }
    base * multiplier
}

/// The gravity interval never grows as more lines are cleared, and never
/// drops below 120 ms.
pub proof fn lemma_fall_delay_monotone(lines_a: int, lines_b: int)
    requires
        0 <= lines_a <= lines_b,
    ensures
        fall_delay_of(lines_b) <= fall_delay_of(lines_a),
        fall_delay_of(lines_a) >= MIN_FALL_DELAY_MS,
        fall_delay_of(lines_b) >= MIN_FALL_DELAY_MS,
{
    assert(lines_a / 10 <= lines_b / 10) by (nonlinear_arith)
        requires
            0 <= lines_a <= lines_b,
    {
    }
}

} // verus!
