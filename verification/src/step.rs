//! Moving a position by a signed amount without leaving `[0, max]`.

use vstd::prelude::*;

verus! {

/// `value`, or the nearer end of `[low, high]` where it lies outside.
pub open spec fn clamp(value: int, low: int, high: int) -> int {
    if value < low {
        low
    } else if value > high {
        high
    } else {
        value
    }
}

/// The position reached from `pos` by a move of `delta`, held to `[0, max]`.
pub open spec fn moved(pos: nat, delta: int, max: nat) -> nat {
    clamp(pos + delta, 0, max as int) as nat
}

/// A move past an end of `[0, max]` arrives where the move that exactly
/// reaches that end arrives; and a position that was moved stays in place
/// when it is held to the range once more.
pub proof fn lemma_moved_saturates(pos: nat, delta: int, max: nat)
    requires
        pos <= max,
    ensures
        moved(pos, delta, max) <= max,
        pos + delta > max ==> moved(pos, delta, max) == moved(pos, max - pos, max),
        pos + delta < 0 ==> moved(pos, delta, max) == moved(pos, -(pos as int), max),
        0 <= pos + delta <= max ==> moved(pos, delta, max) == pos + delta,
        moved(moved(pos, delta, max), 0, max) == moved(pos, delta, max),
{
}

/// Moves `pos` up by `amount`, stopping at `max`.
pub fn step_up(pos: usize, amount: usize, max: usize) -> (next: usize)
    ensures
        next == moved(pos as nat, amount as int, max as nat),
{
    if pos >= max {
        max
    } else if amount >= max - pos {
        max
    } else {
        pos + amount
    }
}

/// Moves `pos` down by `amount`, stopping at 0, and holds the result to `max`.
pub fn step_down(pos: usize, amount: usize, max: usize) -> (next: usize)
    ensures
        next == moved(pos as nat, -(amount as int), max as nat),
{
    let lower: usize = if amount >= pos { 0 } else { pos - amount };
    if lower > max {
        max
    } else {
        lower
    }
}

/// Moves `pos` by `delta`, whatever its size, within `[0, max]`.
pub fn step_by(pos: usize, delta: isize, max: usize) -> (next: usize)
    ensures
        next == moved(pos as nat, delta as int, max as nat),
{
    if delta >= 0 {
        step_up(pos, delta as usize, max)
    } else if delta == isize::MIN {
        let most: usize = isize::MAX as usize;
        step_down(step_down(pos, most, usize::MAX), 1, max)
    } else {
        step_down(pos, (-delta) as usize, max)
    }
}

} // verus!
