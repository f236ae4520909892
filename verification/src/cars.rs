use vstd::prelude::*;

use crate::lane::{stage_le, Stage};
use crate::settings::Settings;
use crate::{random_index, Direction, Itineraire, Point, Vilosity};

verus! {

/// Velocity tiers, in tenths of a map unit per tick.
pub const REDUCE_TIER: u32 = 1;

pub const SLOW_TIER: u32 = 5;

pub const MEDIUM_TIER: u32 = 20;

pub const FAST_TIER: u32 = 30;

/// A single car: its position, identity (entry road and turn), velocity and
/// lifecycle stage, plus the accumulators that carry sub-unit movement and
/// the per-vehicle statistics counters.
#[derive(Debug)]
pub struct Vehicle {
    pub position: Point,
    pub route: Direction,
    pub itineraire: Itineraire,
    /// Sign (-1 or 1) of movement along the entry axis, fixed by `route`.
    pub direction: i32,
    /// Current velocity, in tenths of a unit per tick.
    pub velocity: u32,
    pub is_changed_direction: bool,
    pub is_stopped: bool,
    pub stage: Stage,
    /// The four velocity tiers, lowest first.
    pub velosity_type: Vec<u32>,
    /// Lowest velocity observed while moving, in tenths of a unit per tick.
    pub min_vilosity: u32,
    /// Highest velocity observed while moving.
    pub max_vilosity: u32,
    /// Whole map units travelled so far.
    pub distance_traveled: u64,
    /// Ticks this vehicle has been stepped.
    pub time: u64,
    /// Sub-unit movement carried along the x axis, in tenths of a unit.
    pub accumulated_x: i32,
    /// Sub-unit movement carried along the y axis, in tenths of a unit.
    pub accumulated_y: i32,
}

/// Sign of movement along the entry axis for each entry road: vehicles from
/// Up and Left move toward smaller coordinates.
pub open spec fn dir_sign(route: Direction) -> int {
    match route {
        Direction::Up | Direction::Left => -1,
        Direction::Down | Direction::Right => 1,
    }
}

/// The four tiers as a sequence, lowest first.
pub open spec fn tier_seq() -> Seq<u32> {
    seq![REDUCE_TIER, SLOW_TIER, MEDIUM_TIER, FAST_TIER]
}

/// `v` is one of the four velocity tiers.
pub open spec fn is_tier(v: u32) -> bool {
    v == REDUCE_TIER || v == SLOW_TIER || v == MEDIUM_TIER || v == FAST_TIER
}

/// Whether the vehicle currently advances along the y axis: entry roads Up
/// and Down run vertically until the turn point, horizontally after it.
pub open spec fn moves_on_y(v: Vehicle) -> bool {
    if !v.is_changed_direction {
        v.route == Direction::Up || v.route == Direction::Down
    } else {
        v.route == Direction::Left || v.route == Direction::Right
    }
}

/// Signed per-tick movement direction along the currently active axis.
pub open spec fn move_sign(v: Vehicle) -> int {
    if !v.is_changed_direction {
        v.direction as int
    } else {
        match v.route {
            Direction::Up | Direction::Down => if v.itineraire == Itineraire::Left {
                v.direction as int
            } else {
                -(v.direction as int)
            },
            Direction::Left | Direction::Right => if v.itineraire == Itineraire::Right {
                v.direction as int
            } else {
                -(v.direction as int)
            },
        }
    }
}

/// Whole units released by an accumulator holding `acc1` tenths: the integer
/// part, rounded toward zero.
pub open spec fn carry_delta(acc1: int) -> int {
    if acc1 >= 10 {
        acc1 / 10
    } else if acc1 <= -10 {
        -((-acc1) / 10)
    } else {
        0
    }
}

/// Tenths left in the accumulator after releasing the integer part.
pub open spec fn carry_rest(acc1: int) -> int {
    acc1 - 10 * carry_delta(acc1)
}

/// An accumulator only ever holds tenths of the sign the axis moves in.
pub open spec fn acc_sign_ok(acc: int, sgn: int) -> bool {
    if sgn <= 0 {
        -9 <= acc <= 0
    } else {
        0 <= acc <= 9
    }
}

impl Vehicle {
    /// Structural well-formedness that does not depend on the geometry: the
    /// direction sign matches the entry road, the velocity is one of the four
    /// tiers, straight vehicles never change axis, and each accumulator stays
    /// below one whole unit with the sign of its axis.
    pub open spec fn wf_core(self) -> bool {
        &&& self.direction == dir_sign(self.route)
        &&& is_tier(self.velocity)
        &&& self.velosity_type@ == tier_seq()
        &&& (self.itineraire == Itineraire::Straight ==> !self.is_changed_direction)
        &&& (if !self.is_changed_direction {
            match self.route {
                Direction::Up | Direction::Down => acc_sign_ok(
                    self.accumulated_y as int,
                    dir_sign(self.route),
                ) && self.accumulated_x == 0,
                Direction::Left | Direction::Right => acc_sign_ok(
                    self.accumulated_x as int,
                    dir_sign(self.route),
                ) && self.accumulated_y == 0,
            }
        } else {
            match self.route {
                Direction::Up | Direction::Down => acc_sign_ok(
                    self.accumulated_y as int,
                    dir_sign(self.route),
                ) && acc_sign_ok(self.accumulated_x as int, move_sign(self)),
                Direction::Left | Direction::Right => acc_sign_ok(
                    self.accumulated_x as int,
                    dir_sign(self.route),
                ) && acc_sign_ok(self.accumulated_y as int, move_sign(self)),
            }
        })
    }

    /// A vehicle marked Crossed really is past the exit threshold of its
    /// identity, in the coordinate its exit is measured in.
    pub open spec fn crossed_consistent(self, s: Settings) -> bool {
        let vk = s.vertical_key_points@;
        let hk = s.horizontal_key_points@;
        self.stage == Stage::Crossed ==> match (self.route, self.itineraire) {
            (Direction::Up, Itineraire::Left) => self.position.x < vk[4],
            (Direction::Up, Itineraire::Straight) => self.position.y < hk[4],
            (Direction::Down, Itineraire::Left) => self.position.x > vk[13],
            (Direction::Down, Itineraire::Straight) => self.position.y > hk[13],
            (Direction::Left, Itineraire::Left) => self.position.y > hk[13],
            (Direction::Left, Itineraire::Straight) => self.position.x < vk[4],
            (Direction::Right, Itineraire::Left) => self.position.y < hk[4],
            (Direction::Right, Itineraire::Straight) => self.position.x > vk[13],
            _ => true,
        }
    }

    /// Full well-formedness with respect to the geometry `s`.
    pub open spec fn wf(self, s: Settings) -> bool {
        self.wf_core() && self.crossed_consistent(s)
    }

    /// The vehicle is still on the canvas extended by one vehicle width on
    /// each side.
    pub open spec fn in_bounds(self, s: Settings) -> bool {
        &&& -(s.vehicle as int) <= self.position.x <= s.width as int + s.vehicle as int
        &&& -(s.vehicle as int) <= self.position.y <= s.height as int + s.vehicle as int
    }

    /// Builds a vehicle for the given identity at the origin, Waiting, with a
    /// velocity drawn from the two highest tiers. `spawn` places it at its
    /// map-edge key point afterwards.
    pub fn new(route: Direction, itineraire: Itineraire) -> (r: Vehicle)
        ensures
            r.wf_core(),
            r.position == (Point { x: 0, y: 0 }),
            r.route == route,
            r.itineraire == itineraire,
            r.velocity == MEDIUM_TIER || r.velocity == FAST_TIER,
            !r.is_changed_direction,
            !r.is_stopped,
            r.stage == Stage::Waiting,
            r.min_vilosity == u32::MAX,
            r.max_vilosity == 0,
            r.distance_traveled == 0,
            r.time == 0,
            r.accumulated_x == 0,
            r.accumulated_y == 0,
    {
        let velosity_type: Vec<u32> = vec![REDUCE_TIER, SLOW_TIER, MEDIUM_TIER, FAST_TIER];
        let tier: usize = 2 + random_index(2);
        let velocity = velosity_type[tier];
        let direction: i32 = match route {
            Direction::Up | Direction::Left => -1,
            Direction::Down | Direction::Right => 1,
        };
        Vehicle {
            position: Point::new(0, 0),
            route,
            itineraire,
            direction,
            velocity,
            is_changed_direction: false,
            is_stopped: false,
            stage: Stage::Waiting,
            velosity_type,
            min_vilosity: u32::MAX,
            max_vilosity: 0,
            distance_traveled: 0,
            time: 0,
            accumulated_x: 0,
            accumulated_y: 0,
        }
    }

    /// Sets the velocity to the tier named by `vehicle_type`.
    pub fn set_vilosity(&mut self, vehicle_type: Vilosity)
        requires
            old(self).velosity_type@ == tier_seq(),
        ensures
            *final(self) == (Vehicle {
                velocity: tier_value(vehicle_type),
                ..*old(self)
            }),
    {
        let i: usize = match vehicle_type {
            Vilosity::Reduce => 0,
            Vilosity::Slow => 1,
            Vilosity::Medium => 2,
            Vilosity::Fast => 3,
        };
        self.velocity = self.velosity_type[i];
    }

    /// Squared straight-line distance to another vehicle, in squared units.
    pub fn distance_squared(&self, other: &Vehicle) -> (r: u64)
        requires
            -2_000_000 <= self.position.x <= 2_000_000,
            -2_000_000 <= self.position.y <= 2_000_000,
            -2_000_000 <= other.position.x <= 2_000_000,
            -2_000_000 <= other.position.y <= 2_000_000,
        ensures
            r == dist_sq(self.position, other.position),
    {
        dist_sq_exec(self.position, other.position)
    }

    /// Squared straight-line distance to a point.
    pub fn distance_to_squared(&self, point: Point) -> (r: u64)
        requires
            -2_000_000 <= self.position.x <= 2_000_000,
            -2_000_000 <= self.position.y <= 2_000_000,
            -2_000_000 <= point.x <= 2_000_000,
            -2_000_000 <= point.y <= 2_000_000,
        ensures
            r == dist_sq(self.position, point),
    {
        dist_sq_exec(self.position, point)
    }

    /// Car-following: when the preceding vehicle is within the safety
    /// distance plus a ten-unit margin, this vehicle takes its velocity.
    pub fn adjust_velocity(&mut self, other: &Vehicle, s: &Settings)
        requires
            s.wf(),
            -2_000_000 <= old(self).position.x <= 2_000_000,
            -2_000_000 <= old(self).position.y <= 2_000_000,
            -2_000_000 <= other.position.x <= 2_000_000,
            -2_000_000 <= other.position.y <= 2_000_000,
        ensures
            *final(self) == (Vehicle {
                velocity: follow_velocity(*old(self), other.position, other.velocity, *s),
                ..*old(self)
            }),
    {
        self.apply_follow(other.position, other.velocity, s)
    }

    /// Same as `adjust_velocity`, taking the leader's position and velocity
    /// as plain values.
    pub fn apply_follow(&mut self, other_pos: Point, other_vel: u32, s: &Settings)
        requires
            s.wf(),
            -2_000_000 <= old(self).position.x <= 2_000_000,
            -2_000_000 <= old(self).position.y <= 2_000_000,
            -2_000_000 <= other_pos.x <= 2_000_000,
            -2_000_000 <= other_pos.y <= 2_000_000,
        ensures
            *final(self) == (Vehicle {
                velocity: follow_velocity(*old(self), other_pos, other_vel, *s),
                ..*old(self)
            }),
    {
        let d = dist_sq_exec(self.position, other_pos);
        let margin: i64 = s.safety_distance as i64 + 10;
        proof {
            assert(0 <= margin * margin <= 2_000_000_000_000) by (nonlinear_arith)
                requires
                    0 <= margin <= 1_000_010,
            ;
        }
        if d < (margin * margin) as u64 {
            self.velocity = other_vel;
        }
    }

    /// The vehicle has left the canvas extended by one vehicle width on each
    /// side and should be removed from its route.
    pub fn has_reached_end(&self, s: &Settings) -> (r: bool)
        requires
            s.wf(),
        ensures
            r == !self.in_bounds(*s),
    {
        let border_x = self.position.x < -s.vehicle || self.position.x > s.width + s.vehicle;
        let border_y = self.position.y < -s.vehicle || self.position.y > s.height + s.vehicle;
        border_x || border_y
    }

    /// Places the vehicle at the map-edge key point of its (entry road, turn)
    /// identity.
    pub fn spawn(&mut self, direction: Direction, s: &Settings)
        requires
            s.wf(),
        ensures
            *final(self) == (Vehicle {
                position: spawn_position(direction, old(self).itineraire, *s),
                ..*old(self)
            }),
    {
        let vk = &s.vertical_key_points;
        let hk = &s.horizontal_key_points;
        self.position = match direction {
            Direction::Up => match self.itineraire {
                Itineraire::Left => Point::new(vk[9], hk[16]),
                Itineraire::Straight => Point::new(vk[11], hk[16]),
                Itineraire::Right => Point::new(vk[13], hk[16]),
            },
            Direction::Down => match self.itineraire {
                Itineraire::Right => Point::new(vk[3], hk[0]),
                Itineraire::Straight => Point::new(vk[5], hk[0]),
                Itineraire::Left => Point::new(vk[7], hk[0]),
            },
            Direction::Left => match self.itineraire {
                Itineraire::Right => Point::new(vk[16], hk[3]),
                Itineraire::Straight => Point::new(vk[16], hk[5]),
                Itineraire::Left => Point::new(vk[16], hk[7]),
            },
            Direction::Right => match self.itineraire {
                Itineraire::Left => Point::new(vk[0], hk[9]),
                Itineraire::Straight => Point::new(vk[0], hk[11]),
                Itineraire::Right => Point::new(vk[0], hk[13]),
            },
        };
    }
}

/// The numeric value of a named velocity tier.
pub open spec fn tier_value(t: Vilosity) -> u32 {
    match t {
        Vilosity::Reduce => REDUCE_TIER,
        Vilosity::Slow => SLOW_TIER,
        Vilosity::Medium => MEDIUM_TIER,
        Vilosity::Fast => FAST_TIER,
    }
}

/// Squared straight-line distance between two points.
pub open spec fn dist_sq(a: Point, b: Point) -> int {
    let dx = a.x - b.x;
    let dy = a.y - b.y;
    dx * dx + dy * dy
}

/// The follower's velocity after car-following against a leader at
/// `other_pos` moving at `other_vel`: matched when within the safety distance
/// plus a ten-unit margin, otherwise unchanged.
pub open spec fn follow_velocity(v: Vehicle, other_pos: Point, other_vel: u32, s: Settings) -> u32 {
    let margin = s.safety_distance + 10;
    if dist_sq(v.position, other_pos) < margin * margin {
        other_vel
    } else {
        v.velocity
    }
}

/// The map-edge key point at which a vehicle of the given identity spawns.
pub open spec fn spawn_position(direction: Direction, itineraire: Itineraire, s: Settings) -> Point {
    let vk = s.vertical_key_points@;
    let hk = s.horizontal_key_points@;
    match direction {
        Direction::Up => match itineraire {
            Itineraire::Left => Point { x: vk[9], y: hk[16] },
            Itineraire::Straight => Point { x: vk[11], y: hk[16] },
            Itineraire::Right => Point { x: vk[13], y: hk[16] },
        },
        Direction::Down => match itineraire {
            Itineraire::Right => Point { x: vk[3], y: hk[0] },
            Itineraire::Straight => Point { x: vk[5], y: hk[0] },
            Itineraire::Left => Point { x: vk[7], y: hk[0] },
        },
        Direction::Left => match itineraire {
            Itineraire::Right => Point { x: vk[16], y: hk[3] },
            Itineraire::Straight => Point { x: vk[16], y: hk[5] },
            Itineraire::Left => Point { x: vk[16], y: hk[7] },
        },
        Direction::Right => match itineraire {
            Itineraire::Left => Point { x: vk[0], y: hk[9] },
            Itineraire::Straight => Point { x: vk[0], y: hk[11] },
            Itineraire::Right => Point { x: vk[0], y: hk[13] },
        },
    }
}

/// The stage a vehicle's position puts it in, given its current stage:
/// Crossing strictly between the entry and exit thresholds of its identity,
/// Crossed once past the exit threshold, otherwise unchanged. Right turns
/// never conflict and are left untouched.
pub open spec fn next_stage(
    route: Direction,
    itineraire: Itineraire,
    pos: Point,
    cur: Stage,
    s: Settings,
) -> Stage {
    let vk = s.vertical_key_points@;
    let hk = s.horizontal_key_points@;
    match (route, itineraire) {
        (Direction::Up, Itineraire::Left) => if pos.y < hk[15] && pos.x > vk[4] {
            Stage::Crossing
        } else if pos.x < vk[4] {
            Stage::Crossed
        } else {
            cur
        },
        (Direction::Up, Itineraire::Straight) => if pos.y < hk[15] && pos.y > hk[4] {
            Stage::Crossing
        } else if pos.y < hk[4] {
            Stage::Crossed
        } else {
            cur
        },
        (Direction::Down, Itineraire::Left) => if pos.y > hk[2] && pos.x < vk[13] {
            Stage::Crossing
        } else if pos.x > vk[13] {
            Stage::Crossed
        } else {
            cur
        },
        (Direction::Down, Itineraire::Straight) => if pos.y > hk[2] && pos.y < hk[13] {
            Stage::Crossing
        } else if pos.y > hk[13] {
            Stage::Crossed
        } else {
            cur
        },
        (Direction::Left, Itineraire::Left) => if pos.x < vk[15] && pos.y < hk[13] {
            Stage::Crossing
        } else if pos.y > hk[13] {
            Stage::Crossed
        } else {
            cur
        },
        (Direction::Left, Itineraire::Straight) => if pos.x < vk[15] && pos.x > vk[4] {
            Stage::Crossing
        } else if pos.x < vk[4] {
            Stage::Crossed
        } else {
            cur
        },
        (Direction::Right, Itineraire::Left) => if pos.x > vk[2] && pos.y > hk[4] {
            Stage::Crossing
        } else if pos.y < hk[4] {
            Stage::Crossed
        } else {
            cur
        },
        (Direction::Right, Itineraire::Straight) => if pos.x > vk[2] && pos.x < vk[13] {
            Stage::Crossing
        } else if pos.x > vk[13] {
            Stage::Crossed
        } else {
            cur
        },
        _ => cur,
    }
}

/// Whether this tick's movement from `prev` to `now` crossed the key point at
/// which this identity's travel axis swaps.
pub open spec fn turn_trigger(
    route: Direction,
    itineraire: Itineraire,
    prev: Point,
    now: Point,
    s: Settings,
) -> bool {
    let vk = s.vertical_key_points@;
    let hk = s.horizontal_key_points@;
    match route {
        Direction::Up => (prev.y > hk[13] && now.y <= hk[13] && itineraire == Itineraire::Right)
            || (prev.y > hk[7] && now.y <= hk[7] && itineraire == Itineraire::Left),
        Direction::Down => (prev.y < hk[3] && now.y >= hk[3] && itineraire == Itineraire::Right)
            || (prev.y < hk[9] && now.y >= hk[9] && itineraire == Itineraire::Left),
        Direction::Left => (prev.x > vk[13] && now.x <= vk[13] && itineraire == Itineraire::Right)
            || (prev.x > vk[7] && now.x <= vk[7] && itineraire == Itineraire::Left),
        Direction::Right => (prev.x < vk[9] && now.x >= vk[9] && itineraire == Itineraire::Left)
            || (prev.x < vk[3] && now.x >= vk[3] && itineraire == Itineraire::Right),
    }
}

/// One kinematic step: the active axis advances by the whole units released
/// by its accumulator after adding the signed velocity.
pub open spec fn spec_move_in_direction(v: Vehicle) -> Vehicle {
    let dv = move_sign(v) * v.velocity;
    if moves_on_y(v) {
        let acc1 = v.accumulated_y + dv;
        Vehicle {
            position: Point { x: v.position.x, y: (v.position.y + carry_delta(acc1)) as i32 },
            accumulated_y: carry_rest(acc1) as i32,
            ..v
        }
    } else {
        let acc1 = v.accumulated_x + dv;
        Vehicle {
            position: Point { x: (v.position.x + carry_delta(acc1)) as i32, y: v.position.y },
            accumulated_x: carry_rest(acc1) as i32,
            ..v
        }
    }
}

/// `t + 1`, capped at the top of the type.
pub open spec fn sat_inc(t: u64) -> u64 {
    if t == u64::MAX {
        t
    } else {
        (t + 1) as u64
    }
}

/// `t + d`, capped at the top of the type.
pub open spec fn sat_add(t: u64, d: int) -> u64 {
    if t + d > u64::MAX {
        u64::MAX
    } else {
        (t + d) as u64
    }
}

pub open spec fn abs_int(a: int) -> int {
    if a >= 0 {
        a
    } else {
        -a
    }
}

pub open spec fn min_u32(a: u32, b: u32) -> u32 {
    if a <= b {
        a
    } else {
        b
    }
}

pub open spec fn max_u32(a: u32, b: u32) -> u32 {
    if a >= b {
        a
    } else {
        b
    }
}

/// One whole tick of a vehicle: derive the stage from the current position,
/// advance along the active axis, update the statistics accumulators, then
/// record a crossed turn point. A stopped vehicle is left untouched.
pub open spec fn spec_move_forward(v: Vehicle, s: Settings) -> Vehicle {
    if v.is_stopped {
        v
    } else {
        let v1 = Vehicle { stage: next_stage(v.route, v.itineraire, v.position, v.stage, s), ..v };
        let v2 = spec_move_in_direction(v1);
        let moved = abs_int(v2.position.x - v.position.x) + abs_int(v2.position.y - v.position.y);
        let v3 = Vehicle {
            time: sat_inc(v2.time),
            distance_traveled: sat_add(v2.distance_traveled, moved),
            min_vilosity: min_u32(v2.min_vilosity, v2.velocity),
            max_vilosity: max_u32(v2.max_vilosity, v2.velocity),
            ..v2
        };
        Vehicle {
            is_changed_direction: v3.is_changed_direction || turn_trigger(
                v.route,
                v.itineraire,
                v.position,
                v3.position,
                s,
            ),
            ..v3
        }
    }
}

proof fn lemma_carry_bounds(acc: int, dv: int)
    requires
        -9 <= acc <= 9,
        -30 <= dv <= 30,
    ensures
        -3 <= carry_delta(acc + dv) <= 3,
        -9 <= carry_rest(acc + dv) <= 9,
        dv >= 0 && acc >= 0 ==> carry_delta(acc + dv) >= 0 && carry_rest(acc + dv) >= 0,
        dv <= 0 && acc <= 0 ==> carry_delta(acc + dv) <= 0 && carry_rest(acc + dv) <= 0,
{
}

/// A well-formed vehicle's stage never regresses under stage derivation, and
/// the derived stage is again consistent with the position.
pub proof fn lemma_next_stage_monotone(v: Vehicle, s: Settings)
    requires
        v.wf(s),
    ensures
        stage_le(v.stage, next_stage(v.route, v.itineraire, v.position, v.stage, s)),
        (Vehicle {
            stage: next_stage(v.route, v.itineraire, v.position, v.stage, s),
            ..v
        }).crossed_consistent(s),
{
}

/// One kinematic step of a well-formed vehicle keeps it well-formed, moves
/// each coordinate by at most three units, and moves the coordinate of its
/// exit threshold only further past it.
pub proof fn lemma_move_forward_wf(v: Vehicle, s: Settings)
    requires
        s.wf(),
        v.wf(s),
        v.in_bounds(s),
    ensures
        spec_move_forward(v, s).wf(s),
        stage_le(v.stage, spec_move_forward(v, s).stage),
        -3 <= spec_move_forward(v, s).position.x - v.position.x <= 3,
        -3 <= spec_move_forward(v, s).position.y - v.position.y <= 3,
{
    if !v.is_stopped {
        let v1 = Vehicle { stage: next_stage(v.route, v.itineraire, v.position, v.stage, s), ..v };
        lemma_next_stage_monotone(v, s);
        let ms = move_sign(v1);
        assert(ms == 1 || ms == -1);
        let vel = v1.velocity as int;
        let dv = ms * v1.velocity;
        assert((ms == 1 ==> dv == vel) && (ms == -1 ==> dv == -vel)) by (nonlinear_arith)
            requires
                dv == ms * vel,
        ;
        if moves_on_y(v1) {
            lemma_carry_bounds(v1.accumulated_y as int, dv);
        } else {
            lemma_carry_bounds(v1.accumulated_x as int, dv);
        }
    }
}

fn step_axis(pos: i32, acc: i32, d: i32, vel: u32) -> (r: (i32, i32))
    requires
        -9 <= acc <= 9,
        vel <= 30,
        d == -1 || d == 1,
        -2_100_000 <= pos <= 2_100_000,
    ensures
        r.0 == pos + carry_delta(acc + d * vel),
        r.1 == carry_rest(acc + d * vel),
{
    proof {
        let dvel = d as int * vel as int;
        assert((d == 1 ==> dvel == vel) && (d == -1 ==> dvel == -(vel as int)))
            by (nonlinear_arith)
            requires
                dvel == d as int * vel as int,
        ;
        lemma_carry_bounds(acc as int, dvel);
    }
    let acc1: i32 = acc + d * (vel as i32);
    let delta: i32 = if acc1 >= 10 {
        ((acc1 as u32) / 10) as i32
    } else if acc1 <= -10 {
        let q: i32 = (((-acc1) as u32) / 10) as i32;
        -q
    } else {
        0
    };
    (pos + delta, acc1 - delta * 10)
}

impl Vehicle {
    /// Derives the stage from the current position (see `next_stage`).
    fn set_stage(&mut self, s: &Settings)
        requires
            s.wf(),
        ensures
            *final(self) == (Vehicle {
                stage: next_stage(
                    old(self).route,
                    old(self).itineraire,
                    old(self).position,
                    old(self).stage,
                    *s,
                ),
                ..*old(self)
            }),
    {
        let y = &s.horizontal_key_points;
        let x = &s.vertical_key_points;
        match self.route {
            Direction::Up => {
                match self.itineraire {
                    Itineraire::Left => {
                        if self.position.y < y[15] && self.position.x > x[4] {
                            self.stage = Stage::Crossing;
                        } else if self.position.x < x[4] {
                            self.stage = Stage::Crossed;
                        }
                    },
                    Itineraire::Straight => {
                        if self.position.y < y[15] && self.position.y > y[4] {
                            self.stage = Stage::Crossing;
                        } else if self.position.y < y[4] {
                            self.stage = Stage::Crossed;
                        }
                    },
                    _ => (),
                }
            },
            Direction::Down => {
                match self.itineraire {
                    Itineraire::Left => {
                        if self.position.y > y[2] && self.position.x < x[13] {
                            self.stage = Stage::Crossing;
                        } else if self.position.x > x[13] {
                            self.stage = Stage::Crossed;
                        }
                    },
                    Itineraire::Straight => {
                        if self.position.y > y[2] && self.position.y < y[13] {
                            self.stage = Stage::Crossing;
                        } else if self.position.y > y[13] {
                            self.stage = Stage::Crossed;
                        }
                    },
                    _ => (),
                }
            },
            Direction::Left => {
                match self.itineraire {
                    Itineraire::Left => {
                        if self.position.x < x[15] && self.position.y < y[13] {
                            self.stage = Stage::Crossing;
                        } else if self.position.y > y[13] {
                            self.stage = Stage::Crossed;
                        }
                    },
                    Itineraire::Straight => {
                        if self.position.x < x[15] && self.position.x > x[4] {
                            self.stage = Stage::Crossing;
                        } else if self.position.x < x[4] {
                            self.stage = Stage::Crossed;
                        }
                    },
                    _ => (),
                }
            },
            Direction::Right => {
                match self.itineraire {
                    Itineraire::Left => {
                        if self.position.x > x[2] && self.position.y > y[4] {
                            self.stage = Stage::Crossing;
                        } else if self.position.y < y[4] {
                            self.stage = Stage::Crossed;
                        }
                    },
                    Itineraire::Straight => {
                        if self.position.x > x[2] && self.position.x < x[13] {
                            self.stage = Stage::Crossing;
                        } else if self.position.x > x[13] {
                            self.stage = Stage::Crossed;
                        }
                    },
                    _ => (),
                }
            },
        }
    }

    /// Advances the position along the active axis (see
    /// `spec_move_in_direction`).
    fn move_in_direction(&mut self)
        requires
            -9 <= old(self).accumulated_x <= 9,
            -9 <= old(self).accumulated_y <= 9,
            old(self).velocity <= 30,
            old(self).direction == -1 || old(self).direction == 1,
            -2_100_000 <= old(self).position.x <= 2_100_000,
            -2_100_000 <= old(self).position.y <= 2_100_000,
        ensures
            *final(self) == spec_move_in_direction(*old(self)),
    {
        if !self.is_changed_direction {
            match self.route {
                Direction::Up | Direction::Down => {
                    let r = step_axis(
                        self.position.y,
                        self.accumulated_y,
                        self.direction,
                        self.velocity,
                    );
                    self.position.y = r.0;
                    self.accumulated_y = r.1;
                },
                Direction::Left | Direction::Right => {
                    let r = step_axis(
                        self.position.x,
                        self.accumulated_x,
                        self.direction,
                        self.velocity,
                    );
                    self.position.x = r.0;
                    self.accumulated_x = r.1;
                },
            }
        } else {
            match self.route {
                Direction::Up | Direction::Down => {
                    let d: i32 = if self.itineraire == Itineraire::Left {
                        self.direction
                    } else {
                        -self.direction
                    };
                    let r = step_axis(self.position.x, self.accumulated_x, d, self.velocity);
                    self.position.x = r.0;
                    self.accumulated_x = r.1;
                },
                Direction::Left | Direction::Right => {
                    let d: i32 = if self.itineraire == Itineraire::Right {
                        self.direction
                    } else {
                        -self.direction
                    };
                    let r = step_axis(self.position.y, self.accumulated_y, d, self.velocity);
                    self.position.y = r.0;
                    self.accumulated_y = r.1;
                },
            }
        }
    }

    /// One tick: derive the stage, advance, update the statistics
    /// accumulators, record a crossed turn point. The stage never regresses
    /// (the lifecycle is monotone), and well-formedness is preserved.
    pub fn move_forward(&mut self, s: &Settings)
        requires
            s.wf(),
            old(self).wf(*s),
            old(self).in_bounds(*s),
        ensures
            *final(self) == spec_move_forward(*old(self), *s),
            final(self).wf(*s),
            stage_le(old(self).stage, final(self).stage),
            -3 <= final(self).position.x - old(self).position.x <= 3,
            -3 <= final(self).position.y - old(self).position.y <= 3,
    {
        proof {
            lemma_move_forward_wf(*old(self), *s);
        }
        if self.is_stopped {
            return ;
        }
        self.set_stage(s);

        let prev_position = self.position;

        self.move_in_direction();

        let dxm: u64 = if self.position.x >= prev_position.x {
            (self.position.x - prev_position.x) as u64
        } else {
            (prev_position.x - self.position.x) as u64
        };
        let dym: u64 = if self.position.y >= prev_position.y {
            (self.position.y - prev_position.y) as u64
        } else {
            (prev_position.y - self.position.y) as u64
        };
        let moved: u64 = dxm + dym;

        if self.time < u64::MAX {
            self.time = self.time + 1;
        }
        if self.distance_traveled <= u64::MAX - moved {
            self.distance_traveled = self.distance_traveled + moved;
        } else {
            self.distance_traveled = u64::MAX;
        }
        if self.velocity < self.min_vilosity {
            self.min_vilosity = self.velocity;
        }
        if self.velocity > self.max_vilosity {
            self.max_vilosity = self.velocity;
        }

        let y = &s.horizontal_key_points;
        let x = &s.vertical_key_points;
        match self.route {
            Direction::Up => {
                if (prev_position.y > y[13] && self.position.y <= y[13] && self.itineraire
                    == Itineraire::Right) || (prev_position.y > y[7] && self.position.y <= y[7]
                    && self.itineraire == Itineraire::Left) {
                    self.is_changed_direction = true;
                }
            },
            Direction::Down => {
                if (prev_position.y < y[3] && self.position.y >= y[3] && self.itineraire
                    == Itineraire::Right) || (prev_position.y < y[9] && self.position.y >= y[9]
                    && self.itineraire == Itineraire::Left) {
                    self.is_changed_direction = true;
                }
            },
            Direction::Left => {
                if (prev_position.x > x[13] && self.position.x <= x[13] && self.itineraire
                    == Itineraire::Right) || (prev_position.x > x[7] && self.position.x <= x[7]
                    && self.itineraire == Itineraire::Left) {
                    self.is_changed_direction = true;
                }
            },
            Direction::Right => {
                if (prev_position.x < x[9] && self.position.x >= x[9] && self.itineraire
                    == Itineraire::Left) || (prev_position.x < x[3] && self.position.x >= x[3]
                    && self.itineraire == Itineraire::Right) {
                    self.is_changed_direction = true;
                }
            },
        }
    }

    /// One tick of an unstopped vehicle; a stopped one is left untouched.
    pub fn update(&mut self, s: &Settings)
        requires
            s.wf(),
            old(self).wf(*s),
            old(self).in_bounds(*s),
        ensures
            *final(self) == spec_move_forward(*old(self), *s),
            final(self).wf(*s),
            stage_le(old(self).stage, final(self).stage),
            -3 <= final(self).position.x - old(self).position.x <= 3,
            -3 <= final(self).position.y - old(self).position.y <= 3,
    {
        if !self.is_stopped {
            self.move_forward(s);
        } else {
            proof {
                lemma_move_forward_wf(*old(self), *s);
            }
        }
    }
}

fn dist_sq_exec(a: Point, b: Point) -> (r: u64)
    requires
        -2_000_000 <= a.x <= 2_000_000,
        -2_000_000 <= a.y <= 2_000_000,
        -2_000_000 <= b.x <= 2_000_000,
        -2_000_000 <= b.y <= 2_000_000,
    ensures
        r == dist_sq(a, b),
{
    let dx: i64 = a.x as i64 - b.x as i64;
    let dy: i64 = a.y as i64 - b.y as i64;
    proof {
        assert(0 <= dx * dx <= 16_000_000_000_000) by (nonlinear_arith)
            requires
                -4_000_000 <= dx <= 4_000_000,
        ;
        assert(0 <= dy * dy <= 16_000_000_000_000) by (nonlinear_arith)
            requires
                -4_000_000 <= dy <= 4_000_000,
        ;
    }
    (dx * dx + dy * dy) as u64
}

} // verus!
