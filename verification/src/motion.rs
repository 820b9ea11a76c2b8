//! Visible cursor movement and the honest kind of variation. Pure: the actual input injection
//! lives behind the platform's injector. Every path here is **closed**: the steps of a full
//! cycle sum to zero, so the cursor ends where the user left it.

use vstd::prelude::*;

verus! {

/// What the injector does on each trigger.
#[derive(Debug, Clone, Copy, PartialEq, Eq, Hash, Structural)]
pub enum Motion {
    /// Virtual jiggle: resets the idle timer, the cursor does not move. The default.
    Virtual,
    /// Back and forth along one axis. Two steps.
    Line,
    /// Around the four sides of a square. Four steps.
    Square,
    /// Eight steps around a rough circle.
    Circle,
}

impl Default for Motion {
    fn default() -> (m: Motion)
        ensures
            m == Motion::Virtual,
    {
        Motion::Virtual
    }
}

/// Steps in one full cycle of a motion.
pub open spec fn cycle_len(m: Motion) -> u32 {
    match m {
        Motion::Virtual => 1,
        Motion::Line => 2,
        Motion::Square => 4,
        Motion::Circle => 8,
    }
}

/// Integer division by ten rounding toward zero, as machine division does.
pub open spec fn tenth(a: int) -> int {
    if a >= 0 { a / 10 } else { -((-a) / 10) }
}

/// The rough-circle direction of octant `k` (0..4), in tenths.
pub open spec fn octant(k: int) -> (int, int) {
    if k == 0 { (7, 3) } else if k == 1 { (3, 7) } else if k == 2 { (-3, 7) } else { (-7, 3) }
}

/// Step `index` of a motion can be computed for `distance` without overflow: a step that
/// negates the distance needs it above `i32::MIN`, and the circle scales it by up to 7.
pub open spec fn step_fits(m: Motion, index: u32, distance: i32) -> bool {
    match m {
        Motion::Virtual => true,
        Motion::Line => index % 2 == 0 || distance > i32::MIN,
        Motion::Square => index % 4 < 2 || distance > i32::MIN,
        Motion::Circle => -i32::MAX <= 7 * distance <= i32::MAX,
    }
}

/// The relative move, in pixels, of step `index` of a motion's cycle.
pub open spec fn step_move(m: Motion, index: u32, distance: i32) -> (int, int) {
    let i = index % cycle_len(m);
    let d = distance as int;
    match m {
        Motion::Virtual => (0, 0),
        Motion::Line => if i == 0 { (d, 0) } else { (-d, 0) },
        Motion::Square => if i == 0 {
            (d, 0)
        } else if i == 1 {
            (0, d)
        } else if i == 2 {
            (-d, 0)
        } else {
            (0, -d)
        },
        Motion::Circle => {
            let (nx, ny) = octant((i % 4) as int);
            let (x, y) = (tenth(nx * d), tenth(ny * d));
            if i < 4 { (x, y) } else { (-x, -y) }
        },
    }
}

/// The sum of the first `n` steps of a motion.
pub open spec fn path_sum(m: Motion, distance: i32, n: nat) -> (int, int)
    decreases n,
{
    if n == 0 {
        (0, 0)
    } else {
        let (x, y) = path_sum(m, distance, (n - 1) as nat);
        let (dx, dy) = step_move(m, (n - 1) as u32, distance);
        (x + dx, y + dy)
    }
}

/// The xorshift32 mixing step, seeded with the low bit forced on.
pub open spec fn xorshift_spec(seed: u32) -> u32 {
    let x0 = seed | 1;
    let x1 = x0 ^ (x0 << 13u32);
    let x2 = x1 ^ (x1 >> 17u32);
    x2 ^ (x2 << 5u32)
}

/// The half-width of the variation band: `pct` (at most 100) percent of `value`, at least 1.
pub open spec fn vary_span(value: u32, pct: u32) -> int {
    let p = if pct > 100 { 100 } else { pct };
    let s = (value * p) / 100;
    if s < 1 { 1 } else { s }
}

/// `value` moved by a seed-chosen offset within `±vary_span`, kept between 1 and `u32::MAX`;
/// unchanged when `pct` or `value` is zero.
pub open spec fn varied(value: u32, pct: u32, seed: u32) -> u32 {
    if pct == 0 || value == 0 {
        value
    } else {
        let span = vary_span(value, pct);
        let offset = (xorshift_spec(seed) as int) % (span * 2 + 1);
        let v = value + offset - span;
        (if v < 1 { 1 } else if v > u32::MAX { u32::MAX as int } else { v }) as u32
    }
}

impl Motion {
    /// Steps in one full cycle. `Virtual` never moves, so its cycle is a single no-op step.
    pub fn steps(self) -> (n: u32)
        ensures
            n == cycle_len(self),
    {
        match self {
            Motion::Virtual => 1,
            Motion::Line => 2,
            Motion::Square => 4,
            Motion::Circle => 8,
        }
    }

    /// The relative move for step `index` of the cycle, in pixels. The index wraps, so a long
    /// idle keeps cycling. `distance` is a request to the pointer, not a promise: relative moves
    /// pass through pointer acceleration.
    pub fn step(self, index: u32, distance: i32) -> (r: (i32, i32))
        requires
            step_fits(self, index, distance),
        ensures
            (r.0 as int, r.1 as int) == step_move(self, index, distance),
    {
        let i = index % self.steps();
        match self {
            Motion::Virtual => (0, 0),
            Motion::Line => if i == 0 { (distance, 0) } else { (-distance, 0) },
            Motion::Square => if i == 0 {
                (distance, 0)
            } else if i == 1 {
                (0, distance)
            } else if i == 2 {
                (-distance, 0)
            } else {
                (0, -distance)
            },
            Motion::Circle => {
                // The second half is the negation of the first, so the cycle closes exactly no
                // matter how the octant is rounded.
                let k = i % 4;
                let (nx, ny): (i32, i32) = if k == 0 {
                    (7, 3)
                } else if k == 1 {
                    (3, 7)
                } else if k == 2 {
                    (-3, 7)
                } else {
                    (-7, 3)
                };
                assert(-i32::MAX <= nx * distance <= i32::MAX && -i32::MAX <= ny * distance <= i32::MAX)
                    by (nonlinear_arith)
                    requires
                        -7 <= nx <= 7,
                        -7 <= ny <= 7,
                        -i32::MAX <= 7 * distance <= i32::MAX,
                ;
                let (x, y) = (nx * distance / 10, ny * distance / 10);
                if i < 4 { (x, y) } else { (-x, -y) }
            },
        }
    }
}

/// Deterministic, tiny, and good enough to stop a value being identical every time. Not for
/// anything that matters cryptographically.
pub fn xorshift(seed: u32) -> (r: u32)
    ensures
        r == xorshift_spec(seed),
{
    let mut x = seed | 1;
    x ^= x << 13u32;
    x ^= x >> 17u32;
    x ^= x << 5u32;
    x
}

/// Vary `value` by up to ±`pct` percent; `pct` 0 leaves it alone. A fixed interval
/// synchronises badly with other periodic events, and a cursor that always lands on the same
/// pixel eventually lands somewhere it should not.
pub fn vary(value: u32, pct: u32, seed: u32) -> (r: u32)
    ensures
        r == varied(value, pct, seed),
{
    if pct == 0 || value == 0 {
        return value;
    }
    let pct = if pct > 100 { 100 } else { pct };
    assert(value as u64 * pct as u64 <= 0xffff_ffff * 100 && (value as u64 * pct as u64) / 100 <= value as u64)
        by (nonlinear_arith)
        requires
            pct <= 100,
    ;
    let raw = value as u64 * pct as u64 / 100;
    let span: u64 = if raw < 1 { 1 } else { raw };
    let offset = (xorshift(seed) as u64) % (span * 2 + 1);
    let v = value as i64 + offset as i64 - span as i64;
    let kept: i64 = if v < 1 { 1 } else if v > 0xffff_ffff { 0xffff_ffff } else { v };
    kept as u32
}

/// Every pattern returns to its origin: the steps of one full cycle sum to zero, so the
/// cursor is put back where the user left it.
pub proof fn lemma_cycle_returns_to_origin(m: Motion, distance: i32)
    ensures
        path_sum(m, distance, cycle_len(m) as nat) == (0int, 0int),
{
    let d = distance as int;
    assert(path_sum(m, distance, 0) == (0int, 0int));
    match m {
        Motion::Circle => {
            let p0 = step_move(m, 0, distance);
            let p1 = step_move(m, 1, distance);
            let p2 = step_move(m, 2, distance);
            let p3 = step_move(m, 3, distance);
            assert(step_move(m, 4, distance) == (-p0.0, -p0.1));
            assert(step_move(m, 5, distance) == (-p1.0, -p1.1));
            assert(step_move(m, 6, distance) == (-p2.0, -p2.1));
            assert(step_move(m, 7, distance) == (-p3.0, -p3.1));
            assert(path_sum(m, distance, 1) == p0);
            assert(path_sum(m, distance, 2) == (p0.0 + p1.0, p0.1 + p1.1));
            assert(path_sum(m, distance, 3) == (p0.0 + p1.0 + p2.0, p0.1 + p1.1 + p2.1));
            assert(path_sum(m, distance, 4) == (p0.0 + p1.0 + p2.0 + p3.0, p0.1 + p1.1 + p2.1 + p3.1));
            assert(path_sum(m, distance, 5) == (p1.0 + p2.0 + p3.0, p1.1 + p2.1 + p3.1));
            assert(path_sum(m, distance, 6) == (p2.0 + p3.0, p2.1 + p3.1));
            assert(path_sum(m, distance, 7) == (p3.0, p3.1));
            assert(path_sum(m, distance, 8) == (0int, 0int));
        },
        Motion::Square => {
            assert(path_sum(m, distance, 1) == (d, 0int));
            assert(path_sum(m, distance, 2) == (d, d));
            assert(path_sum(m, distance, 3) == (0int, d));
            assert(path_sum(m, distance, 4) == (0int, 0int));
        },
        Motion::Line => {
            assert(path_sum(m, distance, 1) == (d, 0int));
            assert(path_sum(m, distance, 2) == (0int, 0int));
        },
        Motion::Virtual => {
            assert(path_sum(m, distance, 1) == (0int, 0int));
        },
    }
}

/// The turn from move `a` to move `b`: positive when `b` turns anticlockwise from `a`, negative
/// when it turns back clockwise, zero when they are parallel or either is still.
pub open spec fn turn(a: (int, int), b: (int, int)) -> int {
    a.0 * b.1 - a.1 * b.0
}

/// The circle goes round: every step turns the same way from the one before it, never back,
/// and once the distance is at least 4 pixels each turn is strict, so the eight steps make one
/// full turn. The second half of the cycle retraces the first in the opposite direction.
pub proof fn lemma_circle_goes_round(distance: i32, k: u32)
    requires
        k < 8,
    ensures
        turn(step_move(Motion::Circle, k, distance), step_move(Motion::Circle, (k + 1) as u32, distance)) >= 0,
        distance >= 4 || distance <= -4 ==> turn(
            step_move(Motion::Circle, k, distance),
            step_move(Motion::Circle, (k + 1) as u32, distance),
        ) > 0,
        k < 4 ==> step_move(Motion::Circle, (k + 4) as u32, distance) == (
            -step_move(Motion::Circle, k, distance).0,
            -step_move(Motion::Circle, k, distance).1,
        ),
{
    let d = distance as int;
    let a = tenth(7 * d);
    let b = tenth(3 * d);
    lemma_tenth_odd(7 * d);
    lemma_tenth_odd(3 * d);
    lemma_tenth_scaled(d);
    assert(tenth(-7 * d) == -a);
    assert(tenth(-3 * d) == -b);
    let m = Motion::Circle;
    assert(step_move(m, 0, distance) == (a, b));
    assert(step_move(m, 1, distance) == (b, a));
    assert(step_move(m, 2, distance) == (-b, a));
    assert(step_move(m, 3, distance) == (-a, b));
    assert(step_move(m, 4, distance) == (-a, -b));
    assert(step_move(m, 5, distance) == (-b, -a));
    assert(step_move(m, 6, distance) == (b, -a));
    assert(step_move(m, 7, distance) == (a, -b));
    assert(step_move(m, 8, distance) == (a, b));
    // Every turn is a*a - b*b or 2*a*b, and a, b share a sign with |a| >= |b|.
    let t = turn(step_move(m, k, distance), step_move(m, (k + 1) as u32, distance));
    if k == 0 || k == 2 || k == 4 || k == 6 {
        assert(t == a * a - b * b) by (nonlinear_arith)
            requires
                t == turn(step_move(m, k, distance), step_move(m, (k + 1) as u32, distance)),
                k == 0 ==> step_move(m, k, distance) == (a, b) && step_move(m, (k + 1) as u32, distance) == (b, a),
                k == 2 ==> step_move(m, k, distance) == (-b, a) && step_move(m, (k + 1) as u32, distance) == (-a, b),
                k == 4 ==> step_move(m, k, distance) == (-a, -b) && step_move(m, (k + 1) as u32, distance) == (-b, -a),
                k == 6 ==> step_move(m, k, distance) == (b, -a) && step_move(m, (k + 1) as u32, distance) == (a, -b),
                k == 0 || k == 2 || k == 4 || k == 6,
        ;
    } else {
        assert(t == 2 * (a * b)) by (nonlinear_arith)
            requires
                t == turn(step_move(m, k, distance), step_move(m, (k + 1) as u32, distance)),
                k == 1 ==> step_move(m, k, distance) == (b, a) && step_move(m, (k + 1) as u32, distance) == (-b, a),
                k == 3 ==> step_move(m, k, distance) == (-a, b) && step_move(m, (k + 1) as u32, distance) == (-a, -b),
                k == 5 ==> step_move(m, k, distance) == (-b, -a) && step_move(m, (k + 1) as u32, distance) == (b, -a),
                k == 7 ==> step_move(m, k, distance) == (a, -b) && step_move(m, (k + 1) as u32, distance) == (a, b),
                k == 1 || k == 3 || k == 5 || k == 7,
        ;
    }
    assert(a * a - b * b >= 0 && a * b >= 0) by (nonlinear_arith)
        requires
            (0 <= b <= a) || (a <= b <= 0),
    ;
    assert((d >= 4 || d <= -4) ==> a * a - b * b > 0 && a * b > 0) by (nonlinear_arith)
        requires
            d >= 4 ==> 1 <= b < a,
            d <= -4 ==> a < b <= -1,
    ;
}

/// The square goes round too: each step is a quarter turn anticlockwise from the one before,
/// at right angles to it and the same length, and the first step moves along x by the full
/// distance.
pub proof fn lemma_square_goes_round(distance: i32, k: u32)
    requires
        k < 4,
    ensures
        ({
            let a = step_move(Motion::Square, k, distance);
            let b = step_move(Motion::Square, (k + 1) as u32, distance);
            let d = distance as int;
            &&& b == (-a.1, a.0)
            &&& turn(a, b) == d * d
            &&& a.0 * b.0 + a.1 * b.1 == 0
        }),
        step_move(Motion::Square, 0, distance) == (distance as int, 0int),
{
    let d = distance as int;
    let m = Motion::Square;
    assert(step_move(m, 4, distance) == (d, 0int));
    let a = step_move(m, k, distance);
    let b = step_move(m, (k + 1) as u32, distance);
    assert(b == (-a.1, a.0));
    assert(turn(a, b) == a.0 * a.0 + a.1 * a.1) by (nonlinear_arith)
        requires
            b == (-a.1, a.0),
            turn(a, b) == a.0 * b.1 - a.1 * b.0,
    ;
    assert(a.0 * a.0 + a.1 * a.1 == d * d) by (nonlinear_arith)
        requires
            a == (d, 0int) || a == (0int, d) || a == (-d, 0int) || a == (0int, -d),
    ;
    assert(a.0 * b.0 + a.1 * b.1 == 0) by (nonlinear_arith)
        requires
            b == (-a.1, a.0),
    ;
}

/// Rounding toward zero is odd: a tenth of `-x` is minus a tenth of `x`.
proof fn lemma_tenth_odd(x: int)
    ensures
        tenth(-x) == -tenth(x),
{
}

/// Seven and three tenths of a distance, rounded toward zero, share its sign, and the larger
/// is at least the smaller; from 4 pixels on both are non-zero and strictly ordered.
proof fn lemma_tenth_scaled(d: int)
    ensures
        d >= 0 ==> 0 <= tenth(3 * d) <= tenth(7 * d),
        d <= 0 ==> tenth(7 * d) <= tenth(3 * d) <= 0,
        d >= 4 ==> 1 <= tenth(3 * d) < tenth(7 * d),
        d <= -4 ==> tenth(7 * d) < tenth(3 * d) <= -1,
{
    let e = if d >= 0 { d } else { -d };
    let q3 = (3 * e) / 10;
    let q7 = (7 * e) / 10;
    assert(10 * q3 <= 3 * e < 10 * q3 + 10 && 10 * q7 <= 7 * e < 10 * q7 + 10);
    assert(0 <= q3 <= q7);
    assert(e >= 4 ==> 1 <= q3 < q7);
    if d < 0 {
        assert(-(7 * d) == 7 * e);
        assert(-(3 * d) == 3 * e);
    }
}

/// The step index wraps: step `i` of a cycle is step `i mod steps`.
pub proof fn lemma_step_wraps(m: Motion, index: u32, distance: i32)
    ensures
        step_move(m, index, distance) == step_move(m, index % cycle_len(m), distance),
{
}

/// A zero distance moves nothing, on any pattern.
pub proof fn lemma_zero_distance_is_still(m: Motion, index: u32)
    ensures
        step_move(m, index, 0) == (0int, 0int),
{
}

/// Variation of zero percent is the identity.
pub proof fn lemma_zero_percent_is_identity(value: u32, seed: u32)
    ensures
        varied(value, 0, seed) == value,
{
}

/// A varied value stays within the requested band around a non-zero value, and is never zero.
pub proof fn lemma_vary_stays_in_band(value: u32, pct: u32, seed: u32)
    requires
        value > 0,
        pct > 0,
    ensures
        varied(value, pct, seed) >= 1,
        varied(value, pct, seed) >= value - vary_span(value, pct),
        varied(value, pct, seed) <= value + vary_span(value, pct),
{
}

} // verus!
