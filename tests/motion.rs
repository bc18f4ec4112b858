use chimera_rancher::behaviors::{
    follow_behavior, idle_behavior, integrate, pursue_behavior, run_away_behavior, IdleDraw,
    IdleTimer, UnitBehavior, UnitStats, ROUND_ZERO_RANGE,
};
use chimera_rancher::geometry::{direction_to, distance_sq, isqrt, normalize, Vec2, DIR_ONE};

fn stats(speed: i64, accel: i64, decel: i64) -> UnitStats {
    UnitStats { speed, accel, decel }
}

struct Idle {
    timer: IdleTimer,
    direction: Vec2,
    is_moving: bool,
}

fn idle_tick(vel: &mut Vec2, idle: &mut Idle, s: UnitStats, dt: u64, base: u64, spread: u64, draw: IdleDraw) -> bool {
    idle_behavior(
        vel,
        dt,
        &mut idle.timer,
        base,
        spread,
        &mut idle.direction,
        &mut idle.is_moving,
        s,
        ROUND_ZERO_RANGE,
        draw,
    )
}

#[test]
fn idle_accelerates_to_speed_and_holds() {
    let s = stats(100, 10, 10);
    let dir = Vec2::new(DIR_ONE, 0);
    let mut idle = Idle { timer: IdleTimer::from_duration(10_000), direction: dir, is_moving: true };
    let draw = IdleDraw { duration: 10_000, direction: dir };
    let mut vel = Vec2::zero();
    idle_tick(&mut vel, &mut idle, s, 100, 10_000, 0, draw);
    assert_eq!(vel, Vec2::new(10, 0));
    for _ in 1..10 {
        idle_tick(&mut vel, &mut idle, s, 100, 10_000, 0, draw);
    }
    assert_eq!(vel, Vec2::new(100, 0));
    for _ in 0..5 {
        idle_tick(&mut vel, &mut idle, s, 100, 10_000, 0, draw);
        assert_eq!(vel, Vec2::new(100, 0));
    }
    assert!(idle.is_moving);
    assert_eq!(idle.timer.elapsed, 1_500);
}

#[test]
fn idle_speed_never_drops_while_moving() {
    let s = stats(90, 7, 10);
    let dir = normalize(3, -4);
    let mut idle = Idle { timer: IdleTimer::from_duration(60_000), direction: dir, is_moving: true };
    let draw = IdleDraw { duration: 60_000, direction: dir };
    let mut vel = Vec2::zero();
    let mut last = (0i64, 0i64);
    for _ in 0..40 {
        idle_tick(&mut vel, &mut idle, s, 16, 60_000, 0, draw);
        assert!(vel.x.abs() >= last.0 && vel.y.abs() >= last.1);
        last = (vel.x.abs(), vel.y.abs());
    }
    // 90 * 0.6 = 54 on x, 90 * 0.8 = 72 on y, reached by steps of 4 and 5
    assert_eq!(vel, Vec2::new(54, -72));
}

#[test]
fn idle_acceleration_stops_at_speed() {
    let s = stats(100, 30, 10);
    let dir = Vec2::new(DIR_ONE, 0);
    let mut idle = Idle { timer: IdleTimer::from_duration(60_000), direction: dir, is_moving: true };
    let draw = IdleDraw { duration: 60_000, direction: dir };
    let mut vel = Vec2::zero();
    let mut seen = vec![];
    for _ in 0..6 {
        idle_tick(&mut vel, &mut idle, s, 16, 60_000, 0, draw);
        seen.push(vel.x);
    }
    assert_eq!(seen, vec![30, 60, 90, 100, 100, 100]);
    let mut from_ninety = Vec2::new(90, 0);
    idle_tick(&mut from_ninety, &mut idle, s, 16, 60_000, 0, draw);
    assert_eq!(from_ninety, Vec2::new(100, 0));
}

#[test]
fn idle_deceleration_never_pushes_a_still_axis() {
    let s = stats(100, 10, 10);
    let mut idle = Idle {
        timer: IdleTimer::from_duration(60_000),
        direction: Vec2::new(DIR_ONE, 0),
        is_moving: false,
    };
    let draw = IdleDraw { duration: 60_000, direction: Vec2::zero() };
    let mut vel = Vec2::new(0, 11);
    idle_tick(&mut vel, &mut idle, s, 16, 60_000, 0, draw);
    assert_eq!(vel, Vec2::new(0, 11));
}

#[test]
fn idle_deceleration_stops_at_zero() {
    let s = stats(100, 10, 20);
    let mut idle = Idle {
        timer: IdleTimer::from_duration(60_000),
        direction: Vec2::new(-DIR_ONE, 0),
        is_moving: false,
    };
    let draw = IdleDraw { duration: 60_000, direction: Vec2::zero() };
    let mut vel = Vec2::new(15, 0);
    idle_tick(&mut vel, &mut idle, s, 16, 60_000, 0, draw);
    assert_eq!(vel, Vec2::zero());
    let mut back = Vec2::new(-35, 0);
    idle_tick(&mut back, &mut idle, s, 16, 60_000, 0, draw);
    assert_eq!(back, Vec2::new(-15, 0));
}

#[test]
fn idle_slows_down_then_rests() {
    let s = stats(100, 10, 10);
    let dir = Vec2::new(DIR_ONE, 0);
    let mut idle = Idle { timer: IdleTimer::from_duration(60_000), direction: dir, is_moving: false };
    let draw = IdleDraw { duration: 60_000, direction: dir };
    let mut vel = Vec2::new(45, 0);
    let mut seen = vec![];
    for _ in 0..6 {
        idle_tick(&mut vel, &mut idle, s, 100, 60_000, 0, draw);
        seen.push(vel.x);
    }
    assert_eq!(seen, vec![35, 25, 15, 5, 0, 0]);
}

#[test]
fn idle_deceleration_uses_heading_magnitude() {
    let s = stats(100, 10, 10);
    let mut idle = Idle {
        timer: IdleTimer::from_duration(60_000),
        direction: Vec2::new(0, -DIR_ONE),
        is_moving: false,
    };
    let draw = IdleDraw { duration: 60_000, direction: Vec2::zero() };
    let mut vel = Vec2::new(0, -50);
    idle_tick(&mut vel, &mut idle, s, 100, 60_000, 0, draw);
    assert_eq!(vel, Vec2::new(0, -40));
}

#[test]
fn idle_timer_expiry_redraws_and_toggles() {
    let s = stats(100, 10, 10);
    let mut idle = Idle { timer: IdleTimer { elapsed: 1_900, duration: 2_000 }, direction: Vec2::zero(), is_moving: false };
    let draw = IdleDraw { duration: 2_500, direction: Vec2::new(-DIR_ONE, 0) };
    let mut vel = Vec2::zero();
    let flipped = idle_tick(&mut vel, &mut idle, s, 100, 2_000, 1_000, draw);
    assert_eq!(idle.timer, IdleTimer { elapsed: 0, duration: 2_500 });
    assert_eq!(idle.direction, Vec2::new(-DIR_ONE, 0));
    assert!(idle.is_moving);
    assert_eq!(vel, Vec2::new(-10, 0));
    assert!(flipped);
}

#[test]
fn idle_timer_advances_before_expiry() {
    let s = stats(100, 10, 10);
    let mut idle = Idle { timer: IdleTimer { elapsed: 1_000, duration: 2_000 }, direction: Vec2::zero(), is_moving: false };
    let draw = IdleDraw { duration: 2_500, direction: Vec2::new(-DIR_ONE, 0) };
    let mut vel = Vec2::zero();
    let flipped = idle_tick(&mut vel, &mut idle, s, 999, 2_000, 1_000, draw);
    assert_eq!(idle.timer, IdleTimer { elapsed: 1_999, duration: 2_000 });
    assert!(!idle.is_moving);
    assert_eq!(idle.direction, Vec2::zero());
    assert!(!flipped);
}

#[test]
fn pursue_accelerates_then_clamps() {
    let s = stats(50, 25, 0);
    let mut vel = Vec2::zero();
    let target = Some(Vec2::new(100, 0));
    pursue_behavior(&mut vel, s, Vec2::zero(), target);
    assert_eq!(vel, Vec2::new(25, 0));
    pursue_behavior(&mut vel, s, Vec2::zero(), target);
    assert_eq!(vel, Vec2::new(50, 0));
    pursue_behavior(&mut vel, s, Vec2::zero(), target);
    assert_eq!(vel, Vec2::new(50, 0));
}

#[test]
fn pursue_without_target_changes_nothing() {
    let mut vel = Vec2::new(-300, 7);
    let flipped = pursue_behavior(&mut vel, stats(50, 25, 0), Vec2::zero(), None);
    assert_eq!(vel, Vec2::new(-300, 7));
    assert!(!flipped);
}

#[test]
fn pursue_clamp_takes_heading_sign() {
    let s = stats(50, 25, 0);
    let mut vel = Vec2::new(200, -300);
    let flipped = pursue_behavior(&mut vel, s, Vec2::zero(), Some(Vec2::new(-30, 40)));
    assert_eq!(vel, Vec2::new(-30, 40));
    assert!(flipped);
}

#[test]
fn steering_stays_within_speed() {
    let s = stats(40, 1000, 1000);
    let targets = [(5, 7), (-300, 2), (0, -9), (123, 456)];
    for (tx, ty) in targets {
        let t = Some(Vec2::new(tx, ty));
        let mut a = Vec2::new(1900, -1900);
        pursue_behavior(&mut a, s, Vec2::new(1, 1), t);
        assert!(a.x.abs() <= 40 && a.y.abs() <= 40);
        let mut b = Vec2::new(-1900, 1900);
        run_away_behavior(&mut b, s, Vec2::new(1, 1), t);
        assert!(b.x.abs() <= 40 && b.y.abs() <= 40);
        let mut c = Vec2::new(1900, 1900);
        follow_behavior(&mut c, s, Vec2::new(1, 1), t, 3, ROUND_ZERO_RANGE);
        assert!(c.x.abs() <= 40 && c.y.abs() <= 40);
    }
}

#[test]
fn run_away_heads_opposite() {
    let s = stats(50, 25, 0);
    let mut vel = Vec2::zero();
    let flipped = run_away_behavior(&mut vel, s, Vec2::zero(), Some(Vec2::new(100, 0)));
    assert_eq!(vel, Vec2::new(-25, 0));
    assert!(flipped);
}

#[test]
fn away_direction_is_negated_toward_direction() {
    let pairs = [((0, 0), (3, 4)), ((10, -7), (-13, 22)), ((5, 5), (5, 5)), ((-1, 2), (7, 1))];
    for ((px, py), (tx, ty)) in pairs {
        let p = Vec2::new(px, py);
        let t = Vec2::new(tx, ty);
        let toward = direction_to(p, t);
        let away = direction_to(t, p);
        assert_eq!(away, Vec2::new(-toward.x, -toward.y));
    }
}

#[test]
fn normalize_gives_fixed_point_unit_vectors() {
    assert_eq!(normalize(3, 4), Vec2::new(600_000, 800_000));
    assert_eq!(normalize(-3, -4), Vec2::new(-600_000, -800_000));
    assert_eq!(normalize(0, -9), Vec2::new(0, -DIR_ONE));
    assert_eq!(normalize(0, 0), Vec2::zero());
    // 1 / sqrt(2) = 0.7071067...
    assert_eq!(normalize(1, 1), Vec2::new(707_107, 707_107));
    assert_eq!(normalize(-1, 2), Vec2::new(-447_213, 894_427));
}

#[test]
fn integer_square_roots() {
    assert_eq!(isqrt(0), 0);
    assert_eq!(isqrt(1), 1);
    assert_eq!(isqrt(24), 4);
    assert_eq!(isqrt(25), 5);
    assert_eq!(isqrt(u64::MAX as u128), 4_294_967_295);
    assert_eq!(isqrt(u128::MAX), u64::MAX as u128);
    assert_eq!(distance_sq(Vec2::new(1, 1), Vec2::new(4, 5)), 25);
}

#[test]
fn follow_closes_in_from_far() {
    let s = stats(50, 10, 5);
    let mut vel = Vec2::zero();
    follow_behavior(&mut vel, s, Vec2::zero(), Some(Vec2::new(0, 500)), 100, ROUND_ZERO_RANGE);
    assert_eq!(vel, Vec2::new(0, 10));
}

#[test]
fn follow_inside_band_rests_when_slow() {
    let s = stats(50, 10, 5);
    let mut vel = Vec2::new(0, 9);
    follow_behavior(&mut vel, s, Vec2::zero(), Some(Vec2::new(0, 50)), 100, ROUND_ZERO_RANGE);
    assert_eq!(vel, Vec2::zero());
}

#[test]
fn follow_inside_band_decelerates_along_signed_heading() {
    let s = stats(50, 10, 5);
    let mut vel = Vec2::new(0, 30);
    follow_behavior(&mut vel, s, Vec2::zero(), Some(Vec2::new(0, 50)), 100, ROUND_ZERO_RANGE);
    assert_eq!(vel, Vec2::new(0, 25));
    let mut back = Vec2::new(0, -30);
    follow_behavior(&mut back, s, Vec2::zero(), Some(Vec2::new(0, 50)), 100, ROUND_ZERO_RANGE);
    assert_eq!(back, Vec2::new(0, -35));
}

#[test]
fn flip_follows_horizontal_sign_change() {
    let s = stats(50, 25, 0);
    let mut vel = Vec2::new(-10, 0);
    assert!(pursue_behavior(&mut vel, s, Vec2::zero(), Some(Vec2::new(100, 0))));
    assert_eq!(vel, Vec2::new(15, 0));
    assert!(!pursue_behavior(&mut vel, s, Vec2::zero(), Some(Vec2::new(100, 0))));
}

#[test]
fn integrate_dispatches_on_behavior() {
    let s = stats(50, 25, 0);
    let mut b = UnitBehavior::Pursue { target: Some(Vec2::new(100, 0)) };
    let mut vel = Vec2::zero();
    let draw = IdleDraw { duration: 0, direction: Vec2::zero() };
    integrate(&mut b, &mut vel, Vec2::zero(), s, 16, ROUND_ZERO_RANGE, draw);
    assert_eq!(vel, Vec2::new(25, 0));
    assert_eq!(b, UnitBehavior::Pursue { target: Some(Vec2::new(100, 0)) });

    let mut idle = UnitBehavior::fresh_idle(2_000, 1_000);
    let draw = IdleDraw { duration: 1_500, direction: Vec2::new(0, DIR_ONE) };
    let mut v2 = Vec2::zero();
    integrate(&mut idle, &mut v2, Vec2::zero(), s, 2_000, ROUND_ZERO_RANGE, draw);
    assert_eq!(
        idle,
        UnitBehavior::Idle {
            timer: IdleTimer { elapsed: 0, duration: 1_500 },
            base_duration: 2_000,
            duration_spread: 1_000,
            direction: Vec2::new(0, DIR_ONE),
            is_moving: true,
        }
    );
    assert_eq!(v2, Vec2::new(0, 25));
}

#[test]
fn idle_reaches_slanted_speed_within_speed_over_accel_ticks() {
    let s = stats(100, 10, 10);
    let dir = Vec2::new(333_333, 942_809);
    let mut idle = Idle { timer: IdleTimer::from_duration(60_000), direction: dir, is_moving: true };
    let draw = IdleDraw { duration: 60_000, direction: dir };
    let mut vel = Vec2::zero();
    idle_tick(&mut vel, &mut idle, s, 16, 60_000, 0, draw);
    // 10 * 0.333 and 10 * 0.943, rounded away from zero
    assert_eq!(vel, Vec2::new(4, 10));
    for _ in 1..10 {
        idle_tick(&mut vel, &mut idle, s, 16, 60_000, 0, draw);
    }
    // capped at 100 * 0.333 and 100 * 0.943, rounded toward zero
    assert_eq!(vel, Vec2::new(33, 94));
    idle_tick(&mut vel, &mut idle, s, 16, 60_000, 0, draw);
    assert_eq!(vel, Vec2::new(33, 94));
}

#[test]
fn idle_small_deceleration_still_slows() {
    let s = stats(100, 10, 1);
    let dir = Vec2::new(500_000, 866_025);
    let mut idle = Idle { timer: IdleTimer::from_duration(60_000), direction: dir, is_moving: false };
    let draw = IdleDraw { duration: 60_000, direction: dir };
    let mut vel = Vec2::new(100, 100);
    idle_tick(&mut vel, &mut idle, s, 16, 60_000, 0, draw);
    assert_eq!(vel, Vec2::new(99, 99));
}
