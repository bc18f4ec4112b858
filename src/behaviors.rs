//! Behavior states and the movement integrator that turns the current
//! behavior into a new velocity each tick.

use vstd::prelude::*;
use crate::geometry::{
    abs, direction_to, distance_sq, div_trunc, farther_than, heading_to, is_direction,
    is_position, square, trunc_div, Vec2, DIR_ONE,
};

verus! {

/// Largest speed, acceleration or deceleration a unit may have.
pub const MAX_STAT: i64 = 1_000_000_000;

/// Largest magnitude of a velocity component.
pub const MAX_VEL: i64 = 2_000_000_000;

/// Largest idle duration, in milliseconds.
pub const MAX_DURATION: u64 = 1_000_000_000_000;

/// Speeds below this magnitude are snapped to zero when a unit slows down.
pub const ROUND_ZERO_RANGE: i64 = 10;

/// Movement parameters of a unit, per tick.
#[derive(Clone, Copy, Debug, PartialEq, Eq, Structural)]
pub struct UnitStats {
    pub speed: i64,
    pub accel: i64,
    pub decel: i64,
}

impl UnitStats {
    pub open spec fn wf(self) -> bool {
        0 <= self.speed <= MAX_STAT && 0 <= self.accel <= MAX_STAT && 0 <= self.decel
            <= MAX_STAT
    }
}

/// A one-shot countdown, in milliseconds.
#[derive(Clone, Copy, Debug, PartialEq, Eq, Structural)]
pub struct IdleTimer {
    pub elapsed: u64,
    pub duration: u64,
}

impl IdleTimer {
    pub open spec fn wf(self) -> bool {
        self.elapsed <= self.duration <= MAX_DURATION
    }

    /// A timer that has just been started.
    pub fn from_duration(duration: u64) -> (r: IdleTimer)
        ensures
            r.elapsed == 0,
            r.duration == duration,
    {
        IdleTimer { elapsed: 0, duration }
    }
}

/// The random values an idle unit needs when its timer runs out: the next
/// dwell duration and the next heading.
#[derive(Clone, Copy, Debug, PartialEq, Eq, Structural)]
pub struct IdleDraw {
    pub duration: u64,
    pub direction: Vec2,
}

/// What a unit is currently doing.
#[derive(Clone, Copy, Debug, PartialEq, Eq, Structural)]
pub enum UnitBehavior {
    /// Wandering in a heading that is redrawn, with a dwell duration that is
    /// redrawn, each time the timer runs out.
    Idle {
        timer: IdleTimer,
        base_duration: u64,
        duration_spread: u64,
        direction: Vec2,
        is_moving: bool,
    },
    /// Closing in on a point.
    Pursue { target: Option<Vec2> },
    /// Keeping a standoff distance from a point.
    Follow { target: Option<Vec2>, distance: i64 },
    /// Getting away from a point.
    RunAway { target: Option<Vec2> },
}

pub open spec fn target_ok(t: Option<Vec2>) -> bool {
    match t {
        Some(p) => is_position(p),
        None => true,
    }
}

/// The dwell durations that an idle unit with these parameters may draw.
pub open spec fn duration_in_range(d: int, base_duration: int, duration_spread: int) -> bool {
    base_duration - duration_spread <= d <= base_duration + duration_spread
}

pub open spec fn idle_params_ok(base_duration: u64, duration_spread: u64) -> bool {
    duration_spread <= base_duration && base_duration + duration_spread <= MAX_DURATION
}

impl UnitBehavior {
    pub open spec fn wf(self) -> bool {
        match self {
            UnitBehavior::Idle { timer, base_duration, duration_spread, direction, .. } => {
                &&& timer.wf()
                &&& idle_params_ok(base_duration, duration_spread)
                &&& is_direction(direction)
            },
            UnitBehavior::Pursue { target } => target_ok(target),
            UnitBehavior::Follow { target, distance } => target_ok(target) && distance >= 0,
            UnitBehavior::RunAway { target } => target_ok(target),
        }
    }

    /// A freshly entered idle state: timer restarted at the base duration,
    /// no heading, standing still.
    pub open spec fn fresh_idle_spec(base_duration: u64, duration_spread: u64) -> UnitBehavior {
        UnitBehavior::Idle {
            timer: IdleTimer { elapsed: 0, duration: base_duration },
            base_duration,
            duration_spread,
            direction: Vec2 { x: 0, y: 0 },
            is_moving: false,
        }
    }

    pub fn fresh_idle(base_duration: u64, duration_spread: u64) -> (r: UnitBehavior)
        ensures
            r == Self::fresh_idle_spec(base_duration, duration_spread),
            idle_params_ok(base_duration, duration_spread) ==> r.wf(),
    {
        UnitBehavior::Idle {
            timer: IdleTimer { elapsed: 0, duration: base_duration },
            base_duration,
            duration_spread,
            direction: Vec2 { x: 0, y: 0 },
            is_moving: false,
        }
    }
}

/// A velocity within the bounds the integrator keeps.
pub open spec fn is_velocity(v: Vec2) -> bool {
    -MAX_VEL <= v.x <= MAX_VEL && -MAX_VEL <= v.y <= MAX_VEL
}

/// The share `k * d` of a quantity `k >= 0` along a fixed-point direction
/// component `d`, rounded toward zero.
pub open spec fn part(k: int, d: int) -> int {
    trunc_div(k * d, DIR_ONE as int)
}

/// The per-tick change `k * d` of a rate `k >= 0` along a fixed-point
/// direction component `d`, rounded away from zero: a nonzero rate along a
/// nonzero component always changes the velocity by at least one unit.
pub open spec fn step(k: int, d: int) -> int {
    let m = (k * abs(d) + DIR_ONE - 1) / (DIR_ONE as int);
    if d >= 0 {
        m
    } else {
        -m
    }
}

/// The sprite faces the other way when the horizontal velocity changes sign
/// (zero counts as positive).
pub open spec fn flips(before: Vec2, after: Vec2) -> bool {
    (before.x >= 0) != (after.x >= 0)
}

/// A speed below `round_zero`, for `round_zero >= 0`.
pub open spec fn below_round_zero(v: Vec2, round_zero: int) -> bool {
    v.x * v.x + v.y * v.y < round_zero * round_zero
}

/// Moves `v` toward zero by `s >= 0`, stopping at zero.
pub open spec fn toward_zero(v: int, s: int) -> int {
    if v > s {
        v - s
    } else if v < -s {
        v + s
    } else {
        0
    }
}

/// One axis of an idle unit's velocity after a tick. A moving unit slower
/// than `speed` along its heading speeds up by the [`step`] of `accel` along
/// it, without going past that speed; a stopping unit is snapped to rest
/// when slow enough, and otherwise slows toward zero by the [`step`] of
/// `decel` along the magnitude of its heading.
pub open spec fn idle_axis(v: int, is_moving: bool, stopped: bool, stats: UnitStats, d: int) -> int {
    if is_moving {
        if abs(v) < part(stats.speed as int, abs(d)) {
            clamp_axis(v + step(stats.accel as int, d), stats.speed as int, d)
        } else {
            v
        }
    } else if stopped {
        0
    } else {
        toward_zero(v, step(stats.decel as int, abs(d)))
    }
}

/// Limits an axis to `speed` scaled by the heading: a faster axis is set to
/// exactly that share, with the heading's sign.
pub open spec fn clamp_axis(w: int, speed: int, d: int) -> int {
    if abs(w) > part(speed, abs(d)) {
        part(speed, d)
    } else {
        w
    }
}

/// One axis of a pursuing (or fleeing) unit's velocity after a tick.
pub open spec fn steer_axis(v: int, stats: UnitStats, d: int) -> int {
    clamp_axis(v + step(stats.accel as int, d), stats.speed as int, d)
}

/// One axis of a following unit's velocity after a tick, before the clamp.
pub open spec fn follow_axis(v: int, outside: bool, stopped: bool, stats: UnitStats, d: int) -> int {
    if outside {
        v + step(stats.accel as int, d)
    } else if stopped {
        0
    } else {
        v - step(stats.decel as int, d)
    }
}

proof fn lemma_part_bounds(k: int, d: int)
    requires
        0 <= k <= MAX_STAT,
        -DIR_ONE <= d <= DIR_ONE,
    ensures
        abs(part(k, d)) == part(k, abs(d)),
        0 <= part(k, abs(d)) <= k,
        d >= 0 ==> part(k, d) >= 0,
        d <= 0 ==> part(k, d) <= 0,
{
    let m = k * abs(d);
    assert(0 <= m <= k * DIR_ONE) by (nonlinear_arith)
        requires
            0 <= k,
            0 <= abs(d) <= DIR_ONE,
            m == k * abs(d),
    ;
    assert(m / (DIR_ONE as int) <= k) by (nonlinear_arith)
        requires
            0 <= m <= k * DIR_ONE,
    ;
    assert(0 <= m / (DIR_ONE as int));
    if d < 0 {
        assert(k * d == -m) by (nonlinear_arith)
            requires
                m == k * abs(d),
                d < 0,
        ;
        if m == 0 {
            assert(0int / (DIR_ONE as int) == 0);
        }
    } else {
        assert(k * d == m);
        if d == 0 {
            assert(m == 0);
            assert(0int / (DIR_ONE as int) == 0);
        }
    }
}

proof fn lemma_step_bounds(k: int, d: int)
    requires
        0 <= k <= MAX_STAT,
        -DIR_ONE <= d <= DIR_ONE,
    ensures
        abs(step(k, d)) == step(k, abs(d)),
        0 <= step(k, abs(d)) <= k,
        step(k, abs(d)) * DIR_ONE >= k * abs(d),
        k > 0 && d != 0 ==> step(k, abs(d)) >= 1,
        d >= 0 ==> step(k, d) >= 0,
        d <= 0 ==> step(k, d) <= 0,
{
    let x = k * abs(d);
    let dd = DIR_ONE as int;
    assert(0 <= x <= k * dd) by (nonlinear_arith)
        requires
            0 <= k,
            0 <= abs(d) <= dd,
            x == k * abs(d),
    ;
    let q = (x + dd - 1) / dd;
    let r = (x + dd - 1) % dd;
    assert(x + dd - 1 == q * dd + r && 0 <= r < dd) by (nonlinear_arith)
        requires
            dd == 1_000_000,
            q == (x + dd - 1) / dd,
            r == (x + dd - 1) % dd,
    ;
    assert(0 <= q <= k) by (nonlinear_arith)
        requires
            x + dd - 1 == q * dd + r,
            0 <= r < dd,
            0 <= x <= k * dd,
            dd > 0,
    ;
    assert(q * dd >= x) by (nonlinear_arith)
        requires
            x + dd - 1 == q * dd + r,
            0 <= r < dd,
    ;
    if k > 0 && d != 0 {
        assert(x >= 1) by (nonlinear_arith)
            requires
                k > 0,
                abs(d) > 0,
                x == k * abs(d),
        ;
        assert(q >= 1) by (nonlinear_arith)
            requires
                x + dd - 1 == q * dd + r,
                r < dd,
                x >= 1,
                dd > 0,
        ;
    }
}

/// `step` computed on machine integers.
fn step_exec(k: i64, d: i64) -> (r: i64)
    requires
        0 <= k <= MAX_STAT,
        -DIR_ONE <= d <= DIR_ONE,
    ensures
        r == step(k as int, d as int),
        abs(r as int) == step(k as int, abs(d as int)),
        0 <= abs(r as int) <= k,
        d >= 0 ==> r >= 0,
        d <= 0 ==> r <= 0,
{
    proof {
        lemma_step_bounds(k as int, d as int);
    }
    let ad: i64 = abs_exec(d);
    assert(0 <= k * ad <= 1_000_000_000_000_000) by (nonlinear_arith)
        requires
            0 <= k <= 1_000_000_000,
            0 <= ad <= 1_000_000,
    ;
    let m: i64 = (k * ad + DIR_ONE - 1) / DIR_ONE;
    if d >= 0 {
        m
    } else {
        -m
    }
}

/// `part` computed on machine integers.
fn part_exec(k: i64, d: i64) -> (r: i64)
    requires
        0 <= k <= MAX_STAT,
        -DIR_ONE <= d <= DIR_ONE,
    ensures
        r == part(k as int, d as int),
        abs(r as int) == part(k as int, abs(d as int)),
        0 <= abs(r as int) <= k,
        d >= 0 ==> r >= 0,
        d <= 0 ==> r <= 0,
{
    proof {
        lemma_part_bounds(k as int, d as int);
    }
    assert(-1_000_000_000_000_000 <= k * d <= 1_000_000_000_000_000) by (nonlinear_arith)
        requires
            0 <= k <= 1_000_000_000,
            -1_000_000 <= d <= 1_000_000,
    ;
    let r: i128 = div_trunc((k * d) as i128, DIR_ONE as i128);
    r as i64
}

fn abs_exec(a: i64) -> (r: i64)
    requires
        a > i64::MIN,
    ensures
        r == abs(a as int),
{
    if a >= 0 {
        a
    } else {
        -a
    }
}


fn clamp_exec(w: i64, speed: i64, d: i64) -> (r: i64)
    requires
        0 <= speed <= MAX_STAT,
        -DIR_ONE <= d <= DIR_ONE,
        -4 * MAX_VEL <= w <= 4 * MAX_VEL,
    ensures
        r == clamp_axis(w as int, speed as int, d as int),
        abs(r as int) <= speed,
{
    let lim: i64 = part_exec(speed, abs_exec(d));
    if abs_exec(w) > lim {
        part_exec(speed, d)
    } else {
        w
    }
}

fn below_round_zero_exec(v: Vec2, round_zero: i64) -> (r: bool)
    requires
        is_velocity(v),
    ensures
        r == below_round_zero(v, round_zero as int),
{
    let x: i128 = v.x as i128;
    let y: i128 = v.y as i128;
    assert(0 <= x * x <= 4_000_000_000_000_000_000) by (nonlinear_arith)
        requires
            -2_000_000_000 <= x <= 2_000_000_000,
    ;
    assert(0 <= y * y <= 4_000_000_000_000_000_000) by (nonlinear_arith)
        requires
            -2_000_000_000 <= y <= 2_000_000_000,
    ;
    x * x + y * y < square(round_zero)
}

fn toward_zero_exec(v: i64, s: i64) -> (r: i64)
    requires
        -MAX_VEL <= v <= MAX_VEL,
        0 <= s <= MAX_STAT,
    ensures
        r == toward_zero(v as int, s as int),
{
    if v > s {
        v - s
    } else if v < -s {
        v + s
    } else {
        0
    }
}

/// The timer of an idle unit runs out during a tick of `dt` milliseconds.
pub open spec fn timer_fires(t: IdleTimer, dt: int) -> bool {
    t.elapsed + dt >= t.duration
}

/// One idle tick, from the state before (`0`) to the state after (`1`). When
/// the timer runs out it restarts with the drawn duration, the heading
/// becomes the drawn one, and the unit toggles between moving and stopping;
/// otherwise the timer advances by `dt`. The velocity then follows
/// [`idle_axis`] under the new heading and mode.
pub open spec fn idle_step(
    t0: IdleTimer,
    t1: IdleTimer,
    d0: Vec2,
    d1: Vec2,
    m0: bool,
    m1: bool,
    v0: Vec2,
    v1: Vec2,
    dt: int,
    stats: UnitStats,
    round_zero: int,
    draw: IdleDraw,
) -> bool {
    &&& if timer_fires(t0, dt) {
        &&& t1 == IdleTimer { elapsed: 0, duration: draw.duration }
        &&& d1 == draw.direction
        &&& m1 == !m0
    } else {
        &&& t1.elapsed == t0.elapsed + dt
        &&& t1.duration == t0.duration
        &&& d1 == d0
        &&& m1 == m0
    }
    &&& v1.x == idle_axis(v0.x as int, m1, below_round_zero(v0, round_zero), stats, d1.x as int)
    &&& v1.y == idle_axis(v0.y as int, m1, below_round_zero(v0, round_zero), stats, d1.y as int)
}

/// One tick of an idle unit: advances its timer by `dt` milliseconds,
/// redraws heading and duration and toggles moving when the timer runs out,
/// then accelerates along the heading or slows to a stop. Returns whether
/// the sprite must flip.
pub fn idle_behavior(
    vel: &mut Vec2,
    dt: u64,
    timer: &mut IdleTimer,
    base_duration: u64,
    duration_spread: u64,
    direction: &mut Vec2,
    is_moving: &mut bool,
    stats: UnitStats,
    round_zero: i64,
    draw: IdleDraw,
) -> (flipped: bool)
    requires
        old(timer).wf(),
        idle_params_ok(base_duration, duration_spread),
        is_direction(*old(direction)),
        stats.wf(),
        is_velocity(*old(vel)),
        duration_in_range(draw.duration as int, base_duration as int, duration_spread as int),
        is_direction(draw.direction),
    ensures
        idle_step(
            *old(timer),
            *final(timer),
            *old(direction),
            *final(direction),
            *old(is_moving),
            *final(is_moving),
            *old(vel),
            *final(vel),
            dt as int,
            stats,
            round_zero as int,
            draw,
        ),
        final(timer).wf(),
        is_direction(*final(direction)),
        is_velocity(*final(vel)),
        flipped == flips(*old(vel), *final(vel)),
{
    let old_vel: Vec2 = *vel;
    if dt >= timer.duration - timer.elapsed {
        *timer = IdleTimer { elapsed: 0, duration: draw.duration };
        *direction = draw.direction;
        *is_moving = !*is_moving;
    } else {
        timer.elapsed = timer.elapsed + dt;
    }
    let stopped: bool = below_round_zero_exec(old_vel, round_zero);
    let dx: i64 = direction.x;
    let dy: i64 = direction.y;
    if *is_moving {
        if abs_exec(vel.x) < part_exec(stats.speed, abs_exec(dx)) {
            vel.x = clamp_exec(vel.x + step_exec(stats.accel, dx), stats.speed, dx);
        }
        if abs_exec(vel.y) < part_exec(stats.speed, abs_exec(dy)) {
            vel.y = clamp_exec(vel.y + step_exec(stats.accel, dy), stats.speed, dy);
        }
    } else if stopped {
        vel.x = 0;
        vel.y = 0;
    } else {
        vel.x = toward_zero_exec(vel.x, step_exec(stats.decel, abs_exec(dx)));
        vel.y = toward_zero_exec(vel.y, step_exec(stats.decel, abs_exec(dy)));
    }
    (old_vel.x >= 0) != (vel.x >= 0)
}

/// One tick of a unit steering along direction `d`: accelerates by the [`step`] of `accel`
/// along it, then limits each axis to `speed` along it.
fn steer(vel: &mut Vec2, stats: UnitStats, d: Vec2)
    requires
        stats.wf(),
        is_direction(d),
        is_velocity(*old(vel)),
    ensures
        final(vel).x == steer_axis(old(vel).x as int, stats, d.x as int),
        final(vel).y == steer_axis(old(vel).y as int, stats, d.y as int),
        abs(final(vel).x as int) <= stats.speed,
        abs(final(vel).y as int) <= stats.speed,
{
    let wx: i64 = vel.x + step_exec(stats.accel, d.x);
    let wy: i64 = vel.y + step_exec(stats.accel, d.y);
    vel.x = clamp_exec(wx, stats.speed, d.x);
    vel.y = clamp_exec(wy, stats.speed, d.y);
}

/// One tick of a pursuing or fleeing unit: with no target nothing changes;
/// otherwise each axis follows [`steer_axis`] along the heading from
/// `position` toward the target, or away from it when `away` holds.
pub open spec fn steer_step(
    v0: Vec2,
    v1: Vec2,
    stats: UnitStats,
    position: Vec2,
    target: Option<Vec2>,
    away: bool,
) -> bool {
    match target {
        None => v1 == v0,
        Some(t) => {
            let d = if away {
                heading_to(t, position)
            } else {
                heading_to(position, t)
            };
            &&& v1.x == steer_axis(v0.x as int, stats, d.0)
            &&& v1.y == steer_axis(v0.y as int, stats, d.1)
        },
    }
}

/// A velocity within `speed` on each axis.
pub open spec fn within_speed(v: Vec2, speed: int) -> bool {
    abs(v.x as int) <= speed && abs(v.y as int) <= speed
}

/// One tick of a pursuing unit: accelerates toward the target and keeps each
/// axis within `speed` along the heading. Returns whether the sprite must
/// flip.
pub fn pursue_behavior(vel: &mut Vec2, stats: UnitStats, position: Vec2, target: Option<Vec2>) -> (flipped: bool)
    requires
        stats.wf(),
        is_position(position),
        target_ok(target),
        is_velocity(*old(vel)),
    ensures
        steer_step(*old(vel), *final(vel), stats, position, target, false),
        target is Some ==> within_speed(*final(vel), stats.speed as int),
        is_velocity(*final(vel)),
        flipped == flips(*old(vel), *final(vel)),
{
    let old_vel: Vec2 = *vel;
    match target {
        Some(t) => {
            let d: Vec2 = direction_to(position, t);
            steer(vel, stats, d);
        },
        None => {},
    }
    (old_vel.x >= 0) != (vel.x >= 0)
}

/// One tick of a fleeing unit: as pursuit, along the heading away from the
/// target. Returns whether the sprite must flip.
pub fn run_away_behavior(vel: &mut Vec2, stats: UnitStats, position: Vec2, target: Option<Vec2>) -> (flipped: bool)
    requires
        stats.wf(),
        is_position(position),
        target_ok(target),
        is_velocity(*old(vel)),
    ensures
        steer_step(*old(vel), *final(vel), stats, position, target, true),
        target is Some ==> within_speed(*final(vel), stats.speed as int),
        is_velocity(*final(vel)),
        flipped == flips(*old(vel), *final(vel)),
{
    let old_vel: Vec2 = *vel;
    match target {
        Some(t) => {
            let d: Vec2 = direction_to(t, position);
            steer(vel, stats, d);
        },
        None => {},
    }
    (old_vel.x >= 0) != (vel.x >= 0)
}

/// One tick of a following unit: with no target nothing changes; otherwise,
/// with `d` the heading toward the target, each axis is pushed by the [`step`] of `accel`
/// along `d` when the target is farther than `distance`, is snapped to rest
/// when the unit is slower than `round_zero`, and is otherwise pulled back
/// by the [`step`] of `decel` along `d`, then limited as in pursuit.
pub open spec fn follow_step(
    v0: Vec2,
    v1: Vec2,
    stats: UnitStats,
    position: Vec2,
    target: Option<Vec2>,
    distance: int,
    round_zero: int,
) -> bool {
    match target {
        None => v1 == v0,
        Some(t) => {
            let d = heading_to(position, t);
            let outside = farther_than(position, t, distance);
            let stopped = below_round_zero(v0, round_zero);
            &&& v1.x == clamp_axis(
                follow_axis(v0.x as int, outside, stopped, stats, d.0),
                stats.speed as int,
                d.0,
            )
            &&& v1.y == clamp_axis(
                follow_axis(v0.y as int, outside, stopped, stats, d.1),
                stats.speed as int,
                d.1,
            )
        },
    }
}

/// One tick of a following unit. Returns whether the sprite must flip.
pub fn follow_behavior(
    vel: &mut Vec2,
    stats: UnitStats,
    position: Vec2,
    target: Option<Vec2>,
    distance: i64,
    round_zero: i64,
) -> (flipped: bool)
    requires
        stats.wf(),
        is_position(position),
        target_ok(target),
        is_velocity(*old(vel)),
        distance >= 0,
    ensures
        follow_step(
            *old(vel),
            *final(vel),
            stats,
            position,
            target,
            distance as int,
            round_zero as int,
        ),
        target is Some ==> within_speed(*final(vel), stats.speed as int),
        is_velocity(*final(vel)),
        flipped == flips(*old(vel), *final(vel)),
{
    let old_vel: Vec2 = *vel;
    match target {
        Some(t) => {
            let d: Vec2 = direction_to(position, t);
            let outside: bool = distance_sq(position, t) > square(distance);
            let stopped: bool = below_round_zero_exec(old_vel, round_zero);
            let (wx, wy): (i64, i64) = if outside {
                (vel.x + step_exec(stats.accel, d.x), vel.y + step_exec(stats.accel, d.y))
            } else if stopped {
                (0, 0)
            } else {
                (vel.x - step_exec(stats.decel, d.x), vel.y - step_exec(stats.decel, d.y))
            };
            vel.x = clamp_exec(wx, stats.speed, d.x);
            vel.y = clamp_exec(wy, stats.speed, d.y);
        },
        None => {},
    }
    (old_vel.x >= 0) != (vel.x >= 0)
}


/// One tick of the movement integrator for whatever behavior is active: the
/// behavior keeps its variant, only an idle unit's timer, heading and mode
/// change, and the velocity follows that variant's step.
pub open spec fn behavior_step(
    b0: UnitBehavior,
    b1: UnitBehavior,
    v0: Vec2,
    v1: Vec2,
    position: Vec2,
    stats: UnitStats,
    dt: int,
    round_zero: int,
    draw: IdleDraw,
) -> bool {
    match b0 {
        UnitBehavior::Idle { timer, base_duration, duration_spread, direction, is_moving } => {
            match b1 {
                UnitBehavior::Idle {
                    timer: timer1,
                    base_duration: base1,
                    duration_spread: spread1,
                    direction: direction1,
                    is_moving: moving1,
                } => {
                    &&& base1 == base_duration
                    &&& spread1 == duration_spread
                    &&& idle_step(
                        timer,
                        timer1,
                        direction,
                        direction1,
                        is_moving,
                        moving1,
                        v0,
                        v1,
                        dt,
                        stats,
                        round_zero,
                        draw,
                    )
                },
                _ => false,
            }
        },
        UnitBehavior::Pursue { target } => b1 == b0 && steer_step(
            v0,
            v1,
            stats,
            position,
            target,
            false,
        ),
        UnitBehavior::Follow { target, distance } => b1 == b0 && follow_step(
            v0,
            v1,
            stats,
            position,
            target,
            distance as int,
            round_zero,
        ),
        UnitBehavior::RunAway { target } => b1 == b0 && steer_step(
            v0,
            v1,
            stats,
            position,
            target,
            true,
        ),
    }
}

/// The behavior after one tick of the integrator: an idle unit's timer,
/// heading and mode as [`idle_step`] sets them; any other behavior as it was.
pub open spec fn stepped(b0: UnitBehavior, dt: u64, draw: IdleDraw) -> UnitBehavior {
    match b0 {
        UnitBehavior::Idle { timer, base_duration, duration_spread, direction, is_moving } => {
            if timer_fires(timer, dt as int) {
                UnitBehavior::Idle {
                    timer: IdleTimer { elapsed: 0, duration: draw.duration },
                    base_duration,
                    duration_spread,
                    direction: draw.direction,
                    is_moving: !is_moving,
                }
            } else {
                UnitBehavior::Idle {
                    timer: IdleTimer {
                        elapsed: (timer.elapsed + dt) as u64,
                        duration: timer.duration,
                    },
                    base_duration,
                    duration_spread,
                    direction,
                    is_moving,
                }
            }
        },
        _ => b0,
    }
}

/// The draw an idle unit may be handed: a duration its parameters allow and
/// a unit heading. Other behaviors draw nothing.
pub open spec fn draw_fits(b: UnitBehavior, draw: IdleDraw) -> bool {
    match b {
        UnitBehavior::Idle { base_duration, duration_spread, .. } => {
            &&& duration_in_range(
                draw.duration as int,
                base_duration as int,
                duration_spread as int,
            )
            &&& is_direction(draw.direction)
        },
        _ => true,
    }
}

/// Advances the velocity by one tick of the active behavior, `dt`
/// milliseconds long, and returns whether the sprite must flip.
pub fn integrate(
    behavior: &mut UnitBehavior,
    vel: &mut Vec2,
    position: Vec2,
    stats: UnitStats,
    dt: u64,
    round_zero: i64,
    draw: IdleDraw,
) -> (flipped: bool)
    requires
        old(behavior).wf(),
        stats.wf(),
        is_position(position),
        is_velocity(*old(vel)),
        draw_fits(*old(behavior), draw),
    ensures
        behavior_step(
            *old(behavior),
            *final(behavior),
            *old(vel),
            *final(vel),
            position,
            stats,
            dt as int,
            round_zero as int,
            draw,
        ),
        *final(behavior) == stepped(*old(behavior), dt, draw),
        final(behavior).wf(),
        is_velocity(*final(vel)),
        flipped == flips(*old(vel), *final(vel)),
{
    match *behavior {
        UnitBehavior::Idle { timer, base_duration, duration_spread, direction, is_moving } => {
            let mut timer1: IdleTimer = timer;
            let mut direction1: Vec2 = direction;
            let mut moving1: bool = is_moving;
            let flipped: bool = idle_behavior(
                vel,
                dt,
                &mut timer1,
                base_duration,
                duration_spread,
                &mut direction1,
                &mut moving1,
                stats,
                round_zero,
                draw,
            );
            *behavior =
            UnitBehavior::Idle {
                timer: timer1,
                base_duration,
                duration_spread,
                direction: direction1,
                is_moving: moving1,
            };
            flipped
        },
        UnitBehavior::Pursue { target } => pursue_behavior(vel, stats, position, target),
        UnitBehavior::Follow { target, distance } => follow_behavior(
            vel,
            stats,
            position,
            target,
            distance,
            round_zero,
        ),
        UnitBehavior::RunAway { target } => run_away_behavior(vel, stats, position, target),
    }
}


proof fn lemma_sq_within(v: int, w: int)
    requires
        -abs(v) <= w <= abs(v),
    ensures
        w * w <= v * v,
        -abs(v) < w < abs(v) ==> w * w < v * v,
{
    assert(abs(v) * abs(v) == v * v) by (nonlinear_arith);
    assert(abs(w) * abs(w) == w * w) by (nonlinear_arith);
    assert(abs(w) * abs(w) <= abs(v) * abs(v)) by (nonlinear_arith)
        requires
            0 <= abs(w) <= abs(v),
    ;
    if -abs(v) < w < abs(v) {
        assert(abs(w) * abs(w) < abs(v) * abs(v)) by (nonlinear_arith)
            requires
                0 <= abs(w) < abs(v),
        ;
    }
}

/// The velocity on one axis after `n` ticks of an idle unit that keeps
/// moving along a heading with component `d`.
pub open spec fn idle_axis_after(v: int, stats: UnitStats, d: int, n: nat) -> int
    decreases n,
{
    if n == 0 {
        v
    } else {
        idle_axis(idle_axis_after(v, stats, d, (n - 1) as nat), true, false, stats, d)
    }
}

pub open spec fn smaller(a: int, b: int) -> int {
    if a < b {
        a
    } else {
        b
    }
}

proof fn lemma_idle_after_closed_form(v: int, stats: UnitStats, d: int, n: nat)
    requires
        stats.wf(),
        -DIR_ONE <= d <= DIR_ONE,
        d >= 0 ==> v >= 0,
        d <= 0 ==> v <= 0,
        abs(v) <= part(stats.speed as int, abs(d)),
    ensures
        abs(idle_axis_after(v, stats, d, n)) == smaller(
            part(stats.speed as int, abs(d)),
            abs(v) + n * step(stats.accel as int, abs(d)),
        ),
        d >= 0 ==> idle_axis_after(v, stats, d, n) >= 0,
        d <= 0 ==> idle_axis_after(v, stats, d, n) <= 0,
    decreases n,
{
    lemma_part_bounds(stats.speed as int, d);
    lemma_step_bounds(stats.accel as int, d);
    let a = step(stats.accel as int, abs(d));
    if n == 0 {
        assert(0 * a == 0) by (nonlinear_arith);
    } else {
        let m = (n - 1) as nat;
        lemma_idle_after_closed_form(v, stats, d, m);
        assert(m * a + a == n * a && m * a >= 0) by (nonlinear_arith)
            requires
                n == m + 1,
                a >= 0,
        ;
    }
}

/// An idle unit that keeps moving along a fixed heading, from rest or from
/// a velocity that moves with the heading and is not past `speed` scaled by
/// the heading, gains the [`step`] of `accel` along the heading each tick
/// until it reaches that speed, and then holds it: its speed on the axis
/// never drops from one tick to the next, never goes past that speed, and
/// has reached it after any `n` ticks with `n * accel >= speed`.
pub proof fn lemma_idle_speeds_up(v: int, stats: UnitStats, d: int, n: nat)
    requires
        stats.wf(),
        -DIR_ONE <= d <= DIR_ONE,
        d >= 0 ==> v >= 0,
        d <= 0 ==> v <= 0,
        abs(v) <= part(stats.speed as int, abs(d)),
    ensures
        abs(idle_axis_after(v, stats, d, n)) == smaller(
            part(stats.speed as int, abs(d)),
            abs(v) + n * step(stats.accel as int, abs(d)),
        ),
        abs(idle_axis_after(v, stats, d, n)) <= abs(idle_axis_after(v, stats, d, n + 1)),
        abs(idle_axis_after(v, stats, d, n + 1)) <= part(stats.speed as int, abs(d)),
        d > 0 ==> idle_axis_after(v, stats, d, n) >= 0,
        d < 0 ==> idle_axis_after(v, stats, d, n) <= 0,
        abs(v) + n * step(stats.accel as int, abs(d)) >= part(stats.speed as int, abs(d)) ==> {
            &&& abs(idle_axis_after(v, stats, d, n)) == part(stats.speed as int, abs(d))
            &&& idle_axis_after(v, stats, d, n + 1) == idle_axis_after(v, stats, d, n)
        },
        n * stats.accel >= stats.speed ==> {
            &&& abs(idle_axis_after(v, stats, d, n)) == part(stats.speed as int, abs(d))
            &&& idle_axis_after(v, stats, d, n + 1) == idle_axis_after(v, stats, d, n)
        },
{
    lemma_idle_after_closed_form(v, stats, d, n);
    lemma_idle_after_closed_form(v, stats, d, n + 1);
    let a = step(stats.accel as int, abs(d));
    lemma_step_bounds(stats.accel as int, d);
    lemma_part_bounds(stats.speed as int, d);
    assert(n * a <= (n + 1) * a) by (nonlinear_arith)
        requires
            a >= 0,
    ;
    if n * stats.accel >= stats.speed {
        let t = part(stats.speed as int, abs(d));
        let ad = abs(d);
        let sp = stats.speed as int;
        let ac = stats.accel as int;
        assert(t * DIR_ONE <= sp * ad) by (nonlinear_arith)
            requires
                t == (sp * ad) / 1_000_000,
                sp * ad >= 0,
        ;
        assert(n * a >= t) by (nonlinear_arith)
            requires
                a * 1_000_000 >= ac * ad,
                n * ac >= sp,
                t * 1_000_000 <= sp * ad,
                ad >= 0,
                n >= 0,
                a >= 0,
        ;
    }
}

/// An idle unit that has stopped moving and is not yet slower than
/// `round_zero` loses speed every tick: no axis speeds up, and every moving
/// axis with a nonzero heading component slows down. This holds where
/// `decel` is positive and some moving axis has a nonzero heading component.
pub proof fn lemma_idle_slows_down(v: Vec2, stats: UnitStats, d: Vec2, round_zero: int)
    requires
        stats.wf(),
        is_direction(d),
        !below_round_zero(v, round_zero),
        stats.decel > 0,
        (v.x != 0 && d.x != 0) || (v.y != 0 && d.y != 0),
    ensures
        ({
            let x1 = idle_axis(v.x as int, false, below_round_zero(v, round_zero), stats, d.x as int);
            let y1 = idle_axis(v.y as int, false, below_round_zero(v, round_zero), stats, d.y as int);
            &&& abs(x1) <= abs(v.x as int)
            &&& abs(y1) <= abs(v.y as int)
            &&& x1 * x1 + y1 * y1 < v.x * v.x + v.y * v.y
        }),
{
    let x1 = idle_axis(v.x as int, false, false, stats, d.x as int);
    let y1 = idle_axis(v.y as int, false, false, stats, d.y as int);
    lemma_step_bounds(stats.decel as int, d.x as int);
    lemma_step_bounds(stats.decel as int, d.y as int);
    lemma_sq_within(v.x as int, x1);
    lemma_sq_within(v.y as int, y1);
}

/// An idle unit that has stopped moving and is slower than `round_zero` is
/// brought to rest at once, and, with a positive `round_zero`, stays at rest.
pub proof fn lemma_idle_comes_to_rest(v: Vec2, stats: UnitStats, d: Vec2, round_zero: int)
    requires
        below_round_zero(v, round_zero),
    ensures
        idle_axis(v.x as int, false, below_round_zero(v, round_zero), stats, d.x as int) == 0,
        idle_axis(v.y as int, false, below_round_zero(v, round_zero), stats, d.y as int) == 0,
        round_zero > 0 ==> below_round_zero(Vec2 { x: 0, y: 0 }, round_zero),
{
    if round_zero > 0 {
        assert(round_zero * round_zero > 0) by (nonlinear_arith)
            requires
                round_zero > 0,
        ;
    }
}

} // verus!
