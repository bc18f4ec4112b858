//! Per-kind transition policies: how animals, chimeras and villagers switch
//! behavior from what they observe, and the per-tick update of a unit.

use vstd::prelude::*;
use crate::behaviors::{
    behavior_step, draw_fits, flips, idle_params_ok, integrate, is_velocity, stepped,
    IdleDraw, UnitBehavior, UnitStats, ROUND_ZERO_RANGE,
};
use crate::geometry::{closer_than, dist_sq, distance_sq, farther_than, is_position, square, Vec2};

verus! {

/// An animal closer to the player than this starts running away.
pub const ANIMAL_RUNAWAY_RANGE: i64 = 250;
/// A fleeing animal farther from the player than this goes back to idling.
pub const ANIMAL_IDLE_RANGE: i64 = 500;
/// Base idle duration of an animal, in milliseconds.
pub const ANIMAL_IDLE_DURATION: u64 = 2000;
/// Spread of an animal's idle duration, in milliseconds.
pub const ANIMAL_IDLE_DURATION_SPREAD: u64 = 1000;
/// A chimera closer to the player than this follows the player.
pub const CHIMERA_FOLLOW_RANGE: i64 = 450;
/// Standoff distance a following chimera keeps from the player.
pub const CHIMERA_FOLLOW_DISTANCE: i64 = 100;
/// A chimera pursues villagers closer than this.
pub const CHIMERA_PURSUE_RANGE: i64 = 250;
/// Base idle duration of a chimera, in milliseconds.
pub const CHIMERA_IDLE_DURATION: u64 = 2000;
/// Spread of a chimera's idle duration, in milliseconds.
pub const CHIMERA_IDLE_DURATION_SPREAD: u64 = 1000;

/// Thresholds of the animal policy.
#[derive(Clone, Copy, Debug, PartialEq, Eq, Structural)]
pub struct AnimalConfig {
    pub runaway_range: i64,
    pub idle_range: i64,
    pub idle_duration: u64,
    pub idle_duration_spread: u64,
    pub round_zero: i64,
}

impl AnimalConfig {
    pub open spec fn wf(self) -> bool {
        &&& 0 <= self.runaway_range
        &&& 0 <= self.idle_range
        &&& idle_params_ok(self.idle_duration, self.idle_duration_spread)
    }

    /// The game's default thresholds.
    pub fn new() -> (r: AnimalConfig)
        ensures
            r.runaway_range == ANIMAL_RUNAWAY_RANGE,
            r.idle_range == ANIMAL_IDLE_RANGE,
            r.idle_duration == ANIMAL_IDLE_DURATION,
            r.idle_duration_spread == ANIMAL_IDLE_DURATION_SPREAD,
            r.round_zero == ROUND_ZERO_RANGE,
            r.wf(),
    {
        AnimalConfig {
            runaway_range: ANIMAL_RUNAWAY_RANGE,
            idle_range: ANIMAL_IDLE_RANGE,
            idle_duration: ANIMAL_IDLE_DURATION,
            idle_duration_spread: ANIMAL_IDLE_DURATION_SPREAD,
            round_zero: ROUND_ZERO_RANGE,
        }
    }
}

/// Thresholds of the chimera policy.
#[derive(Clone, Copy, Debug, PartialEq, Eq, Structural)]
pub struct ChimeraConfig {
    pub pursue_range: i64,
    pub follow_range: i64,
    pub follow_distance: i64,
    pub idle_duration: u64,
    pub idle_duration_spread: u64,
    pub round_zero: i64,
}

impl ChimeraConfig {
    pub open spec fn wf(self) -> bool {
        &&& 0 <= self.pursue_range
        &&& 0 <= self.follow_range
        &&& 0 <= self.follow_distance
        &&& idle_params_ok(self.idle_duration, self.idle_duration_spread)
    }

    /// The game's default thresholds.
    pub fn new() -> (r: ChimeraConfig)
        ensures
            r.pursue_range == CHIMERA_PURSUE_RANGE,
            r.follow_range == CHIMERA_FOLLOW_RANGE,
            r.follow_distance == CHIMERA_FOLLOW_DISTANCE,
            r.idle_duration == CHIMERA_IDLE_DURATION,
            r.idle_duration_spread == CHIMERA_IDLE_DURATION_SPREAD,
            r.round_zero == ROUND_ZERO_RANGE,
            r.wf(),
    {
        ChimeraConfig {
            pursue_range: CHIMERA_PURSUE_RANGE,
            follow_range: CHIMERA_FOLLOW_RANGE,
            follow_distance: CHIMERA_FOLLOW_DISTANCE,
            idle_duration: CHIMERA_IDLE_DURATION,
            idle_duration_spread: CHIMERA_IDLE_DURATION_SPREAD,
            round_zero: ROUND_ZERO_RANGE,
        }
    }
}

/// Thresholds of the villager policy. Pursuing villagers never give up; an
/// idle villager starts pursuing the player closer than `engage_range`
/// (zero: never).
#[derive(Clone, Copy, Debug, PartialEq, Eq, Structural)]
pub struct VillagerConfig {
    pub engage_range: i64,
    pub round_zero: i64,
}

impl VillagerConfig {
    pub open spec fn wf(self) -> bool {
        0 <= self.engage_range
    }

    /// The game's default: idle villagers stay idle.
    pub fn new() -> (r: VillagerConfig)
        ensures
            r.engage_range == 0,
            r.round_zero == ROUND_ZERO_RANGE,
            r.wf(),
    {
        VillagerConfig { engage_range: 0, round_zero: ROUND_ZERO_RANGE }
    }
}

/// What the simulation keeps of one unit between ticks.
#[derive(Clone, Copy, Debug, PartialEq, Eq, Structural)]
pub struct UnitState {
    pub behavior: UnitBehavior,
    pub velocity: Vec2,
    pub position: Vec2,
    pub stats: UnitStats,
}

impl UnitState {
    pub open spec fn wf(self) -> bool {
        &&& self.behavior.wf()
        &&& is_velocity(self.velocity)
        &&& is_position(self.position)
        &&& self.stats.wf()
    }
}

/// The behaviors an animal can be in.
pub open spec fn animal_supports(b: UnitBehavior) -> bool {
    b is Idle || b is RunAway
}

/// The behaviors a chimera can be in.
pub open spec fn chimera_supports(b: UnitBehavior) -> bool {
    b is Idle || b is Pursue || b is Follow
}

/// The behaviors a villager can be in.
pub open spec fn villager_supports(b: UnitBehavior) -> bool {
    b is Idle || b is Pursue
}

/// An idle animal closer to the player than `runaway_range` flees the
/// player; a fleeing animal farther than `idle_range` goes back to a fresh
/// idle state, and otherwise keeps fleeing from where the player is now.
pub open spec fn animal_next(b: UnitBehavior, position: Vec2, player: Vec2, cfg: AnimalConfig) -> UnitBehavior {
    match b {
        UnitBehavior::Idle { .. } => {
            if closer_than(position, player, cfg.runaway_range as int) {
                UnitBehavior::RunAway { target: Some(player) }
            } else {
                b
            }
        },
        UnitBehavior::RunAway { .. } => {
            if farther_than(position, player, cfg.idle_range as int) {
                UnitBehavior::fresh_idle_spec(cfg.idle_duration, cfg.idle_duration_spread)
            } else {
                UnitBehavior::RunAway { target: Some(player) }
            }
        },
        _ => b,
    }
}

/// The animal policy for one tick.
pub fn animal_transition(behavior: UnitBehavior, position: Vec2, player: Vec2, cfg: AnimalConfig) -> (r: UnitBehavior)
    requires
        animal_supports(behavior),
        is_position(position),
        is_position(player),
        cfg.wf(),
    ensures
        r == animal_next(behavior, position, player, cfg),
{
    let d: i128 = distance_sq(position, player);
    match behavior {
        UnitBehavior::RunAway { .. } => {
            if d > square(cfg.idle_range) {
                UnitBehavior::fresh_idle(cfg.idle_duration, cfg.idle_duration_spread)
            } else {
                UnitBehavior::RunAway { target: Some(player) }
            }
        },
        _ => {
            if d < square(cfg.runaway_range) {
                UnitBehavior::RunAway { target: Some(player) }
            } else {
                behavior
            }
        },
    }
}

/// `k` is the villager a chimera at `position` goes after: the nearest one
/// closer than `range`, the first in order among equally near ones.
pub open spec fn is_nearest_in_range(position: Vec2, villagers: Seq<Vec2>, range: int, k: int) -> bool {
    &&& 0 <= k < villagers.len()
    &&& closer_than(position, villagers[k], range)
    &&& forall|j: int|
        0 <= j < villagers.len() && closer_than(position, villagers[j], range) ==> dist_sq(
            position,
            villagers[k],
        ) <= dist_sq(position, villagers[j])
    &&& forall|j: int|
        0 <= j < k && closer_than(position, villagers[j], range) ==> dist_sq(position, villagers[k])
            < dist_sq(position, villagers[j])
}

/// The villager a chimera at `position` goes after, if any is in range.
pub open spec fn nearest_in_range_spec(position: Vec2, villagers: Seq<Vec2>, range: int) -> Option<Vec2> {
    if exists|k: int| is_nearest_in_range(position, villagers, range, k) {
        Some(villagers[choose|k: int| is_nearest_in_range(position, villagers, range, k)])
    } else {
        None
    }
}

proof fn lemma_nearest_unique(position: Vec2, villagers: Seq<Vec2>, range: int, a: int, b: int)
    requires
        is_nearest_in_range(position, villagers, range, a),
        is_nearest_in_range(position, villagers, range, b),
    ensures
        a == b,
{
}

/// Scans the villagers in order for the nearest one closer than `range`.
pub fn nearest_in_range(position: Vec2, villagers: &Vec<Vec2>, range: i64) -> (r: Option<Vec2>)
    requires
        is_position(position),
        forall|i: int| 0 <= i < villagers.len() ==> is_position(#[trigger] villagers[i]),
    ensures
        r == nearest_in_range_spec(position, villagers@, range as int),
        r is None <==> forall|j: int|
            0 <= j < villagers.len() ==> !closer_than(position, #[trigger] villagers[j], range as int),
{
    let r2: i128 = square(range);
    let mut best: Option<usize> = None;
    let mut best_d: i128 = 0;
    let mut i: usize = 0;
    while i < villagers.len()
        invariant
            0 <= i <= villagers.len(),
            r2 == range * range,
            is_position(position),
            forall|i: int| 0 <= i < villagers.len() ==> is_position(#[trigger] villagers[i]),
            best is None ==> forall|j: int|
                0 <= j < i ==> !closer_than(position, #[trigger] villagers[j], range as int),
            best matches Some(k) ==> {
                &&& k < i
                &&& best_d == dist_sq(position, villagers[k as int])
                &&& is_nearest_in_range(position, villagers@.take(i as int), range as int, k as int)
            },
        decreases villagers.len() - i,
    {
        let p: Vec2 = villagers[i];
        let d: i128 = distance_sq(position, p);
        match best {
            None => {
                if d < r2 {
                    best = Some(i);
                    best_d = d;
                }
            },
            Some(k) => {
                if d < best_d {
                    best = Some(i);
                    best_d = d;
                }
            },
        }
        assert(villagers@.take(i as int + 1)[i as int] == villagers[i as int]);
        i = i + 1;
    }
    assert(villagers@.take(villagers.len() as int) =~= villagers@);
    match best {
        None => None,
        Some(k) => {
            proof {
                let w = choose|w: int| is_nearest_in_range(position, villagers@, range as int, w);
                lemma_nearest_unique(position, villagers@, range as int, k as int, w);
            }
            Some(villagers[k])
        },
    }
}


proof fn lemma_nearest_exists(position: Vec2, villagers: Seq<Vec2>, range: int, n: int)
    requires
        0 <= n <= villagers.len(),
        exists|j: int| 0 <= j < n && closer_than(position, #[trigger] villagers[j], range),
    ensures
        exists|k: int| is_nearest_in_range(position, villagers.take(n), range, k),
    decreases n,
{
    let s = villagers.take(n);
    let last = n - 1;
    let p = villagers.take(last);
    assert forall|j: int| 0 <= j < last implies p[j] == s[j] && s[j] == villagers[j] by {}
    assert(s[last] == villagers[last]);
    if exists|j: int| 0 <= j < last && closer_than(position, #[trigger] villagers[j], range) {
        lemma_nearest_exists(position, villagers, range, last);
        let k = choose|k: int| is_nearest_in_range(position, p, range, k);
        if closer_than(position, s[last], range) && dist_sq(position, s[last]) < dist_sq(
            position,
            s[k],
        ) {
            assert(is_nearest_in_range(position, s, range, last));
        } else {
            assert(is_nearest_in_range(position, s, range, k));
        }
    } else {
        assert(closer_than(position, s[last], range));
        assert(is_nearest_in_range(position, s, range, last));
    }
}

/// A chimera goes after a villager whenever one is in range.
proof fn lemma_nearest_found(position: Vec2, villagers: Seq<Vec2>, range: int)
    requires
        exists|j: int| 0 <= j < villagers.len() && closer_than(position, #[trigger] villagers[j], range),
    ensures
        nearest_in_range_spec(position, villagers, range) is Some,
{
    lemma_nearest_exists(position, villagers, range, villagers.len() as int);
    assert(villagers.take(villagers.len() as int) =~= villagers);
}

/// An idle chimera goes after the villager in range if there is one, else
/// follows the player closer than `follow_range` at `follow_distance`. A
/// pursuing chimera retargets the villager in range, or goes back to a fresh
/// idle state. A following chimera goes after the villager in range, else
/// goes back to idling once the player is farther than `follow_range`, else
/// keeps following the player where the player is now.
pub open spec fn chimera_next(
    b: UnitBehavior,
    position: Vec2,
    player: Vec2,
    villager: Option<Vec2>,
    cfg: ChimeraConfig,
) -> UnitBehavior {
    match b {
        UnitBehavior::Idle { .. } => {
            if villager is Some {
                UnitBehavior::Pursue { target: villager }
            } else if closer_than(position, player, cfg.follow_range as int) {
                UnitBehavior::Follow { target: Some(player), distance: cfg.follow_distance }
            } else {
                b
            }
        },
        UnitBehavior::Pursue { .. } => {
            if villager is Some {
                UnitBehavior::Pursue { target: villager }
            } else {
                UnitBehavior::fresh_idle_spec(cfg.idle_duration, cfg.idle_duration_spread)
            }
        },
        UnitBehavior::Follow { distance, .. } => {
            if villager is Some {
                UnitBehavior::Pursue { target: villager }
            } else if farther_than(position, player, cfg.follow_range as int) {
                UnitBehavior::fresh_idle_spec(cfg.idle_duration, cfg.idle_duration_spread)
            } else {
                UnitBehavior::Follow { target: Some(player), distance }
            }
        },
        _ => b,
    }
}

/// The chimera policy for one tick, given the villager in range, if any.
pub fn chimera_transition(
    behavior: UnitBehavior,
    position: Vec2,
    player: Vec2,
    villager: Option<Vec2>,
    cfg: ChimeraConfig,
) -> (r: UnitBehavior)
    requires
        chimera_supports(behavior),
        is_position(position),
        is_position(player),
        cfg.wf(),
    ensures
        r == chimera_next(behavior, position, player, villager, cfg),
{
    let d: i128 = distance_sq(position, player);
    match behavior {
        UnitBehavior::Pursue { .. } => {
            if villager.is_some() {
                UnitBehavior::Pursue { target: villager }
            } else {
                UnitBehavior::fresh_idle(cfg.idle_duration, cfg.idle_duration_spread)
            }
        },
        UnitBehavior::Follow { distance, .. } => {
            if villager.is_some() {
                UnitBehavior::Pursue { target: villager }
            } else if d > square(cfg.follow_range) {
                UnitBehavior::fresh_idle(cfg.idle_duration, cfg.idle_duration_spread)
            } else {
                UnitBehavior::Follow { target: Some(player), distance }
            }
        },
        _ => {
            if villager.is_some() {
                UnitBehavior::Pursue { target: villager }
            } else if d < square(cfg.follow_range) {
                UnitBehavior::Follow { target: Some(player), distance: cfg.follow_distance }
            } else {
                behavior
            }
        },
    }
}

/// A pursuing villager keeps chasing the player where the player is now; an
/// idle villager starts chasing the player closer than `engage_range`.
pub open spec fn villager_next(b: UnitBehavior, position: Vec2, player: Vec2, cfg: VillagerConfig) -> UnitBehavior {
    match b {
        UnitBehavior::Pursue { .. } => UnitBehavior::Pursue { target: Some(player) },
        UnitBehavior::Idle { .. } => {
            if closer_than(position, player, cfg.engage_range as int) {
                UnitBehavior::Pursue { target: Some(player) }
            } else {
                b
            }
        },
        _ => b,
    }
}

/// The villager policy for one tick.
pub fn villager_transition(behavior: UnitBehavior, position: Vec2, player: Vec2, cfg: VillagerConfig) -> (r: UnitBehavior)
    requires
        villager_supports(behavior),
        is_position(position),
        is_position(player),
        cfg.wf(),
    ensures
        r == villager_next(behavior, position, player, cfg),
{
    match behavior {
        UnitBehavior::Pursue { .. } => UnitBehavior::Pursue { target: Some(player) },
        _ => {
            if distance_sq(position, player) < square(cfg.engage_range) {
                UnitBehavior::Pursue { target: Some(player) }
            } else {
                behavior
            }
        },
    }
}

/// One tick of the movement integrator on a unit, with `round_zero` as the
/// rest threshold: position and stats stay, the velocity follows the active
/// behavior, and `flipped` tells whether the sprite must flip.
pub open spec fn unit_moved(
    u0: UnitState,
    u1: UnitState,
    flipped: bool,
    dt: u64,
    draw: IdleDraw,
    round_zero: i64,
) -> bool {
    &&& u1.position == u0.position
    &&& u1.stats == u0.stats
    &&& behavior_step(
        u0.behavior,
        stepped(u0.behavior, dt, draw),
        u0.velocity,
        u1.velocity,
        u0.position,
        u0.stats,
        dt as int,
        round_zero as int,
        draw,
    )
    &&& flipped == flips(u0.velocity, u1.velocity)
}

/// One animal tick: the unit moves, then the animal policy runs on the
/// behavior the integrator left.
pub open spec fn animal_tick(
    u0: UnitState,
    u1: UnitState,
    flipped: bool,
    player: Vec2,
    dt: u64,
    draw: IdleDraw,
    cfg: AnimalConfig,
) -> bool {
    &&& unit_moved(u0, u1, flipped, dt, draw, cfg.round_zero)
    &&& u1.behavior == animal_next(stepped(u0.behavior, dt, draw), u0.position, player, cfg)
}

/// One chimera tick: the unit moves, then the chimera policy runs on the
/// behavior the integrator left, with the villager in range found in
/// `villagers`, which are the villagers' positions at the start of the tick.
pub open spec fn chimera_tick(
    u0: UnitState,
    u1: UnitState,
    flipped: bool,
    player: Vec2,
    villagers: Seq<Vec2>,
    dt: u64,
    draw: IdleDraw,
    cfg: ChimeraConfig,
) -> bool {
    &&& unit_moved(u0, u1, flipped, dt, draw, cfg.round_zero)
    &&& u1.behavior == chimera_next(
        stepped(u0.behavior, dt, draw),
        u0.position,
        player,
        nearest_in_range_spec(u0.position, villagers, cfg.pursue_range as int),
        cfg,
    )
}

/// One villager tick: the unit moves, then the villager policy runs on the
/// behavior the integrator left.
pub open spec fn villager_tick(
    u0: UnitState,
    u1: UnitState,
    flipped: bool,
    player: Vec2,
    dt: u64,
    draw: IdleDraw,
    cfg: VillagerConfig,
) -> bool {
    &&& unit_moved(u0, u1, flipped, dt, draw, cfg.round_zero)
    &&& u1.behavior == villager_next(stepped(u0.behavior, dt, draw), u0.position, player, cfg)
}

/// Advances one animal by a tick of `dt` milliseconds; returns whether its
/// sprite must flip.
pub fn animal_update(unit: &mut UnitState, player: Vec2, dt: u64, draw: IdleDraw, cfg: AnimalConfig) -> (flipped: bool)
    requires
        old(unit).wf(),
        animal_supports(old(unit).behavior),
        draw_fits(old(unit).behavior, draw),
        is_position(player),
        cfg.wf(),
    ensures
        animal_tick(*old(unit), *final(unit), flipped, player, dt, draw, cfg),
        final(unit).wf(),
        animal_supports(final(unit).behavior),
{
    let mut b: UnitBehavior = unit.behavior;
    let mut v: Vec2 = unit.velocity;
    let flipped: bool = integrate(&mut b, &mut v, unit.position, unit.stats, dt, cfg.round_zero, draw);
    unit.behavior = animal_transition(b, unit.position, player, cfg);
    unit.velocity = v;
    flipped
}

/// Advances one chimera by a tick of `dt` milliseconds, given the
/// villagers' positions at the start of the tick; returns whether its
/// sprite must flip.
pub fn chimera_update(
    unit: &mut UnitState,
    player: Vec2,
    villagers: &Vec<Vec2>,
    dt: u64,
    draw: IdleDraw,
    cfg: ChimeraConfig,
) -> (flipped: bool)
    requires
        old(unit).wf(),
        chimera_supports(old(unit).behavior),
        draw_fits(old(unit).behavior, draw),
        is_position(player),
        forall|i: int| 0 <= i < villagers.len() ==> is_position(#[trigger] villagers[i]),
        cfg.wf(),
    ensures
        chimera_tick(*old(unit), *final(unit), flipped, player, villagers@, dt, draw, cfg),
        final(unit).wf(),
        chimera_supports(final(unit).behavior),
{
    let villager: Option<Vec2> = nearest_in_range(unit.position, villagers, cfg.pursue_range);
    let mut b: UnitBehavior = unit.behavior;
    let mut v: Vec2 = unit.velocity;
    let flipped: bool = integrate(&mut b, &mut v, unit.position, unit.stats, dt, cfg.round_zero, draw);
    unit.behavior = chimera_transition(b, unit.position, player, villager, cfg);
    unit.velocity = v;
    flipped
}

/// Advances one villager by a tick of `dt` milliseconds; returns whether
/// its sprite must flip.
pub fn villager_update(unit: &mut UnitState, player: Vec2, dt: u64, draw: IdleDraw, cfg: VillagerConfig) -> (flipped: bool)
    requires
        old(unit).wf(),
        villager_supports(old(unit).behavior),
        draw_fits(old(unit).behavior, draw),
        is_position(player),
        cfg.wf(),
    ensures
        villager_tick(*old(unit), *final(unit), flipped, player, dt, draw, cfg),
        final(unit).wf(),
        villager_supports(final(unit).behavior),
{
    let mut b: UnitBehavior = unit.behavior;
    let mut v: Vec2 = unit.velocity;
    let flipped: bool = integrate(&mut b, &mut v, unit.position, unit.stats, dt, cfg.round_zero, draw);
    unit.behavior = villager_transition(b, unit.position, player, cfg);
    unit.velocity = v;
    flipped
}


/// Advances every animal by one tick of `dt` milliseconds, the `i`-th with
/// the `i`-th draw; returns, per animal, whether its sprite must flip.
pub fn animal_behavior_system(
    units: &mut Vec<UnitState>,
    player: Vec2,
    dt: u64,
    draws: &Vec<IdleDraw>,
    cfg: AnimalConfig,
) -> (flipped: Vec<bool>)
    requires
        draws.len() == old(units).len(),
        forall|i: int|
            0 <= i < old(units).len() ==> {
                &&& (#[trigger] old(units)[i]).wf()
                &&& animal_supports(old(units)[i].behavior)
                &&& draw_fits(old(units)[i].behavior, draws[i])
            },
        is_position(player),
        cfg.wf(),
    ensures
        final(units).len() == old(units).len(),
        flipped.len() == old(units).len(),
        forall|i: int|
            0 <= i < old(units).len() ==> animal_tick(
                #[trigger] old(units)[i],
                final(units)[i],
                flipped[i],
                player,
                dt,
                draws[i],
                cfg,
            ),
        forall|i: int|
            0 <= i < final(units).len() ==> (#[trigger] final(units)[i]).wf()
                && animal_supports(final(units)[i].behavior),
{
    let ghost start = units@;
    let mut flipped: Vec<bool> = Vec::new();
    let mut i: usize = 0;
    while i < units.len()
        invariant
            units.len() == start.len(),
            draws.len() == start.len(),
            0 <= i <= start.len(),
            flipped.len() == i,
            is_position(player),
            cfg.wf(),
            forall|j: int|
                0 <= j < start.len() ==> {
                    &&& (#[trigger] start[j]).wf()
                    &&& animal_supports(start[j].behavior)
                    &&& draw_fits(start[j].behavior, draws[j])
                },
            forall|j: int| i <= j < start.len() ==> units[j] == #[trigger] start[j],
            forall|j: int|
                0 <= j < i ==> animal_tick(
                    #[trigger] start[j],
                    units[j],
                    flipped[j],
                    player,
                    dt,
                    draws[j],
                    cfg,
                ),
            forall|j: int|
                0 <= j < i ==> (#[trigger] units[j]).wf() && animal_supports(units[j].behavior),
        decreases start.len() - i,
    {
        let mut u: UnitState = units[i];
        assert(u == start[i as int]);
        let f: bool = animal_update(&mut u, player, dt, draws[i], cfg);
        units.set(i, u);
        flipped.push(f);
        i = i + 1;
    }
    flipped
}

/// Advances every chimera by one tick of `dt` milliseconds, the `i`-th with
/// the `i`-th draw, against the villagers' positions as they were at the
/// start of the tick; returns, per chimera, whether its sprite must flip.
pub fn chimera_behavior_system(
    units: &mut Vec<UnitState>,
    player: Vec2,
    villagers: &Vec<Vec2>,
    dt: u64,
    draws: &Vec<IdleDraw>,
    cfg: ChimeraConfig,
) -> (flipped: Vec<bool>)
    requires
        draws.len() == old(units).len(),
        forall|i: int|
            0 <= i < old(units).len() ==> {
                &&& (#[trigger] old(units)[i]).wf()
                &&& chimera_supports(old(units)[i].behavior)
                &&& draw_fits(old(units)[i].behavior, draws[i])
            },
        forall|i: int| 0 <= i < villagers.len() ==> is_position(#[trigger] villagers[i]),
        is_position(player),
        cfg.wf(),
    ensures
        final(units).len() == old(units).len(),
        flipped.len() == old(units).len(),
        forall|i: int|
            0 <= i < old(units).len() ==> chimera_tick(
                #[trigger] old(units)[i],
                final(units)[i],
                flipped[i],
                player,
                villagers@,
                dt,
                draws[i],
                cfg,
            ),
        forall|i: int|
            0 <= i < final(units).len() ==> (#[trigger] final(units)[i]).wf()
                && chimera_supports(final(units)[i].behavior),
{
    let ghost start = units@;
    let mut flipped: Vec<bool> = Vec::new();
    let mut i: usize = 0;
    while i < units.len()
        invariant
            units.len() == start.len(),
            draws.len() == start.len(),
            0 <= i <= start.len(),
            flipped.len() == i,
            is_position(player),
            forall|j: int| 0 <= j < villagers.len() ==> is_position(#[trigger] villagers[j]),
            cfg.wf(),
            forall|j: int|
                0 <= j < start.len() ==> {
                    &&& (#[trigger] start[j]).wf()
                    &&& chimera_supports(start[j].behavior)
                    &&& draw_fits(start[j].behavior, draws[j])
                },
            forall|j: int| i <= j < start.len() ==> units[j] == #[trigger] start[j],
            forall|j: int|
                0 <= j < i ==> chimera_tick(
                    #[trigger] start[j],
                    units[j],
                    flipped[j],
                    player,
                    villagers@,
                    dt,
                    draws[j],
                    cfg,
                ),
            forall|j: int|
                0 <= j < i ==> (#[trigger] units[j]).wf() && chimera_supports(units[j].behavior),
        decreases start.len() - i,
    {
        let mut u: UnitState = units[i];
        assert(u == start[i as int]);
        let f: bool = chimera_update(&mut u, player, villagers, dt, draws[i], cfg);
        units.set(i, u);
        flipped.push(f);
        i = i + 1;
    }
    flipped
}

/// Advances every villager by one tick of `dt` milliseconds, the `i`-th with
/// the `i`-th draw; returns, per villager, whether its sprite must flip.
pub fn villager_behavior_system(
    units: &mut Vec<UnitState>,
    player: Vec2,
    dt: u64,
    draws: &Vec<IdleDraw>,
    cfg: VillagerConfig,
) -> (flipped: Vec<bool>)
    requires
        draws.len() == old(units).len(),
        forall|i: int|
            0 <= i < old(units).len() ==> {
                &&& (#[trigger] old(units)[i]).wf()
                &&& villager_supports(old(units)[i].behavior)
                &&& draw_fits(old(units)[i].behavior, draws[i])
            },
        is_position(player),
        cfg.wf(),
    ensures
        final(units).len() == old(units).len(),
        flipped.len() == old(units).len(),
        forall|i: int|
            0 <= i < old(units).len() ==> villager_tick(
                #[trigger] old(units)[i],
                final(units)[i],
                flipped[i],
                player,
                dt,
                draws[i],
                cfg,
            ),
        forall|i: int|
            0 <= i < final(units).len() ==> (#[trigger] final(units)[i]).wf()
                && villager_supports(final(units)[i].behavior),
{
    let ghost start = units@;
    let mut flipped: Vec<bool> = Vec::new();
    let mut i: usize = 0;
    while i < units.len()
        invariant
            units.len() == start.len(),
            draws.len() == start.len(),
            0 <= i <= start.len(),
            flipped.len() == i,
            is_position(player),
            cfg.wf(),
            forall|j: int|
                0 <= j < start.len() ==> {
                    &&& (#[trigger] start[j]).wf()
                    &&& villager_supports(start[j].behavior)
                    &&& draw_fits(start[j].behavior, draws[j])
                },
            forall|j: int| i <= j < start.len() ==> units[j] == #[trigger] start[j],
            forall|j: int|
                0 <= j < i ==> villager_tick(
                    #[trigger] start[j],
                    units[j],
                    flipped[j],
                    player,
                    dt,
                    draws[j],
                    cfg,
                ),
            forall|j: int|
                0 <= j < i ==> (#[trigger] units[j]).wf() && villager_supports(units[j].behavior),
        decreases start.len() - i,
    {
        let mut u: UnitState = units[i];
        assert(u == start[i as int]);
        let f: bool = villager_update(&mut u, player, dt, draws[i], cfg);
        units.set(i, u);
        flipped.push(f);
        i = i + 1;
    }
    flipped
}

/// An idle animal closer to the player than `runaway_range` is fleeing the
/// player after one tick.
pub proof fn lemma_animal_flees_when_close(
    u0: UnitState,
    u1: UnitState,
    flipped: bool,
    player: Vec2,
    dt: u64,
    draw: IdleDraw,
    cfg: AnimalConfig,
)
    requires
        animal_tick(u0, u1, flipped, player, dt, draw, cfg),
        u0.behavior is Idle,
        closer_than(u0.position, player, cfg.runaway_range as int),
    ensures
        u1.behavior == (UnitBehavior::RunAway { target: Some(player) }),
{
}

/// A fleeing animal farther from the player than `idle_range` is idle after
/// one tick, with a timer that has just started on the base duration.
pub proof fn lemma_animal_calms_down_when_far(
    u0: UnitState,
    u1: UnitState,
    flipped: bool,
    player: Vec2,
    dt: u64,
    draw: IdleDraw,
    cfg: AnimalConfig,
)
    requires
        animal_tick(u0, u1, flipped, player, dt, draw, cfg),
        u0.behavior is RunAway,
        farther_than(u0.position, player, cfg.idle_range as int),
    ensures
        u1.behavior is Idle,
        u1.behavior->timer.elapsed == 0,
        u1.behavior->timer.duration == cfg.idle_duration,
        u1.behavior->is_moving == false,
{
}

/// An idle chimera with a villager in pursue range is pursuing a villager
/// after one tick, whether or not the player is in follow range.
pub proof fn lemma_chimera_prefers_villager(
    u0: UnitState,
    u1: UnitState,
    flipped: bool,
    player: Vec2,
    villagers: Seq<Vec2>,
    dt: u64,
    draw: IdleDraw,
    cfg: ChimeraConfig,
    j: int,
)
    requires
        chimera_tick(u0, u1, flipped, player, villagers, dt, draw, cfg),
        u0.behavior is Idle,
        0 <= j < villagers.len(),
        closer_than(u0.position, villagers[j], cfg.pursue_range as int),
    ensures
        u1.behavior is Pursue,
        u1.behavior->Pursue_target == nearest_in_range_spec(
            u0.position,
            villagers,
            cfg.pursue_range as int,
        ),
        u1.behavior->Pursue_target is Some,
{
    lemma_nearest_found(u0.position, villagers, cfg.pursue_range as int);
}

} // verus!
