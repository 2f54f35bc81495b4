use vstd::prelude::*;

verus! {

/// Direction in which a swinging sprite animation walks through its frames.
#[derive(Debug, PartialEq, Eq, Structural, Clone, Copy)]
pub enum IndexDirection {
    Up,
    Down,
}

impl Default for IndexDirection {
    fn default() -> (d: Self)
        ensures
            d == IndexDirection::Up,
    {
        IndexDirection::Up
    }
}

/// `true` when `index` lies in the inclusive frame range `start..=end`.
pub open spec fn in_frames(index: int, start: int, end: int) -> bool {
    start <= index <= end
}

/// The frame an animation starts from: the current one when it lies in the
/// range, otherwise the first frame of the range.
pub open spec fn clamp_frame(index: int, start: int, end: int) -> int {
    if in_frames(index, start, end) {
        index
    } else {
        start
    }
}

/// Next frame of a cycling animation: after the last frame comes the first.
pub open spec fn cycle_next(index: int, start: int, end: int) -> int {
    let i = clamp_frame(index, start, end);
    if i == end {
        start
    } else {
        i + 1
    }
}

/// Direction a swinging animation moves in from frame `i` (already clamped):
/// it turns down at the last frame and up again at the first one.
pub open spec fn swing_direction(i: int, start: int, end: int, dir: IndexDirection) -> IndexDirection {
    let d1 = if i == end && dir == IndexDirection::Up {
        IndexDirection::Down
    } else {
        dir
    };
    if i == start && d1 == IndexDirection::Down {
        IndexDirection::Up
    } else {
        d1
    }
}

/// Next frame of a swinging animation.
pub open spec fn swing_next(index: int, start: int, end: int, dir: IndexDirection) -> int {
    let i = clamp_frame(index, start, end);
    if swing_direction(i, start, end, dir) == IndexDirection::Up {
        i + 1
    } else {
        i - 1
    }
}

/// Advances `index` to the next frame of the cycling animation `start..=end`.
/// An index outside the range is first reset to `start`.
pub fn cycle_texture(index: &mut usize, start: usize, end: usize)
    requires
        cycle_next(*old(index) as int, start as int, end as int) <= usize::MAX,
    ensures
        *final(index) as int == cycle_next(*old(index) as int, start as int, end as int),
        start <= end ==> in_frames(*final(index) as int, start as int, end as int),
{
    if !(start <= *index && *index <= end) {
        *index = start;
    }
    *index = if *index == end {
        start
    } else {
        *index + 1
    };
}

/// Advances `index` one frame through the range `start..=end`, going up
/// until the last frame and then down until the first frame, and so on.
/// An index outside the range is first reset to `start`.
pub fn swing_texture(index: &mut usize, start: usize, end: usize, index_direction: &mut IndexDirection)
    requires
        swing_next(*old(index) as int, start as int, end as int, *old(index_direction)) <= usize::MAX,
    ensures
        *final(index) as int == swing_next(
            *old(index) as int,
            start as int,
            end as int,
            *old(index_direction),
        ),
        *final(index_direction) == swing_direction(
            clamp_frame(*old(index) as int, start as int, end as int),
            start as int,
            end as int,
            *old(index_direction),
        ),
        start < end ==> in_frames(*final(index) as int, start as int, end as int),
        (*final(index) as int, *final(index_direction)) == swing_step(
            *old(index) as int,
            *old(index_direction),
            start as int,
            end as int,
        ),
{
    if !(start <= *index && *index <= end) {
        *index = start;
    }
    if *index == end && *index_direction == IndexDirection::Up {
        *index_direction = IndexDirection::Down;
    }
    if *index == start && *index_direction == IndexDirection::Down {
        *index_direction = IndexDirection::Up;
    }
    *index = if *index_direction == IndexDirection::Up {
        *index + 1
    } else {
        *index - 1
    };
}

/// The frame reached after `n` steps of a cycling animation.
pub open spec fn cycle_iter(index: int, start: int, end: int, n: nat) -> int
    decreases n,
{
    if n == 0 {
        index
    } else {
        cycle_next(cycle_iter(index, start, end, (n - 1) as nat), start, end)
    }
}

/// A cycling animation whose current frame is in its range comes back to that
/// frame after exactly as many steps as the range has frames.
pub proof fn lemma_cycle_period(index: int, start: int, end: int)
    requires
        in_frames(index, start, end),
    ensures
        cycle_iter(index, start, end, (end - start + 1) as nat) == index,
{
    lemma_cycle_iter_value(index, start, end, (end - start + 1) as nat);
    assert((index - start + (end - start + 1)) % (end - start + 1) == (index - start) % (end
        - start + 1)) by {
        vstd::arithmetic::div_mod::lemma_mod_add_multiples_vanish(index - start, end - start + 1);
    }
    vstd::arithmetic::div_mod::lemma_small_mod((index - start) as nat, (end - start + 1) as nat);
}

/// Closed form of `n` steps of a cycling animation from a frame in its range.
pub proof fn lemma_cycle_iter_value(index: int, start: int, end: int, n: nat)
    requires
        in_frames(index, start, end),
    ensures
        cycle_iter(index, start, end, n) == start + (index - start + n) % (end - start + 1),
    decreases n,
{
    let len = end - start + 1;
    if n == 0 {
        vstd::arithmetic::div_mod::lemma_small_mod((index - start) as nat, len as nat);
    } else {
        lemma_cycle_iter_value(index, start, end, (n - 1) as nat);
        let k = index - start + n - 1;
        vstd::arithmetic::div_mod::lemma_mod_bound(k, len);
        let r = k % len;
        assert((k + 1) % len == if r + 1 == len { 0 } else { r + 1 }) by {
            vstd::arithmetic::div_mod::lemma_fundamental_div_mod(k, len);
            vstd::arithmetic::div_mod::lemma_mod_multiples_vanish(k / len, r + 1, len);
            if r + 1 < len {
                vstd::arithmetic::div_mod::lemma_small_mod((r + 1) as nat, len as nat);
            } else {
                vstd::arithmetic::div_mod::lemma_mod_self_0(len);
            }
        }
    }
}

/// One step of a swinging animation: the next frame and the direction
/// kept for the step after, as `swing_texture` leaves them.
pub open spec fn swing_step(index: int, dir: IndexDirection, start: int, end: int) -> (int, IndexDirection) {
    (swing_next(index, start, end, dir), swing_direction(clamp_frame(index, start, end), start, end, dir))
}

/// Frame and direction after `n` steps of a swinging animation.
pub open spec fn swing_iter(index: int, dir: IndexDirection, start: int, end: int, n: nat) -> (int, IndexDirection)
    decreases n,
{
    if n == 0 {
        (index, dir)
    } else {
        let next = swing_step(index, dir, start, end);
        swing_iter(next.0, next.1, start, end, (n - 1) as nat)
    }
}

/// `a` steps then `b` steps are `a + b` steps.
proof fn lemma_swing_iter_add(index: int, dir: IndexDirection, start: int, end: int, a: nat, b: nat)
    ensures
        swing_iter(index, dir, start, end, a + b) == {
            let mid = swing_iter(index, dir, start, end, a);
            swing_iter(mid.0, mid.1, start, end, b)
        },
    decreases a,
{
    if a > 0 {
        let next = swing_step(index, dir, start, end);
        lemma_swing_iter_add(next.0, next.1, start, end, (a - 1) as nat, b);
        assert((a + b - 1) as nat == ((a - 1) as nat + b) as nat);
    }
}

/// Going up from frame `i`, `k` steps that stay below the last frame reach
/// frame `i + k`, still going up.
proof fn lemma_swing_up(i: int, start: int, end: int, k: nat)
    requires
        start < end,
        start <= i,
        i + k <= end,
    ensures
        swing_iter(i, IndexDirection::Up, start, end, k) == (i + k, IndexDirection::Up),
    decreases k,
{
    if k > 0 {
        assert(swing_step(i, IndexDirection::Up, start, end) == (i + 1, IndexDirection::Up));
        lemma_swing_up(i + 1, start, end, (k - 1) as nat);
    }
}

/// Going down from frame `i`, `k` steps that stay above the first frame
/// reach frame `i - k`, still going down.
proof fn lemma_swing_down(i: int, start: int, end: int, k: nat)
    requires
        start < end,
        i <= end,
        start <= i - k,
    ensures
        swing_iter(i, IndexDirection::Down, start, end, k) == (i - k, IndexDirection::Down),
    decreases k,
{
    if k > 0 {
        assert(swing_step(i, IndexDirection::Down, start, end) == (i - 1, IndexDirection::Down));
        lemma_swing_down(i - 1, start, end, (k - 1) as nat);
    }
}

/// A swinging animation started on its first frame going up walks up to
/// the last frame and back down: after `2 * (end - start)` steps it is on
/// its first frame again (with the direction left at `Down`, which turns up
/// on the next step just as `Up` does), so that the frames it shows repeat
/// with period `2 * (end - start)`.
pub proof fn lemma_swing_period(start: int, end: int, n: nat)
    requires
        start < end,
    ensures
        swing_iter(start, IndexDirection::Up, start, end, (2 * (end - start)) as nat) == (
            start,
            IndexDirection::Down,
        ),
        swing_step(start, IndexDirection::Down, start, end) == swing_step(start, IndexDirection::Up, start, end),
        swing_iter(start, IndexDirection::Up, start, end, n + (2 * (end - start)) as nat).0 == swing_iter(
            start,
            IndexDirection::Up,
            start,
            end,
            n,
        ).0,
{
    let len = (end - start) as nat;
    let period = (2 * (end - start)) as nat;
    lemma_swing_up(start, start, end, len);
    assert(swing_step(end, IndexDirection::Up, start, end) == (end - 1, IndexDirection::Down));
    assert(swing_iter(end, IndexDirection::Up, start, end, 1) == swing_iter(
        end - 1,
        IndexDirection::Down,
        start,
        end,
        0,
    ));
    lemma_swing_down(end - 1, start, end, (len - 1) as nat);
    lemma_swing_iter_add(end, IndexDirection::Up, start, end, 1, (len - 1) as nat);
    lemma_swing_iter_add(start, IndexDirection::Up, start, end, len, len);
    assert(swing_iter(start, IndexDirection::Up, start, end, period) == (start, IndexDirection::Down));
    lemma_swing_iter_add(start, IndexDirection::Up, start, end, period, n);
    assert(n + period == period + n);
    if n > 0 {
        let next = swing_step(start, IndexDirection::Up, start, end);
        assert(swing_iter(start, IndexDirection::Down, start, end, n) == swing_iter(next.0, next.1, start, end, (n - 1) as nat));
    }
}

} // verus!
