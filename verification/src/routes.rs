use vstd::prelude::*;

use crate::cars::{
    abs_int, dist_sq, follow_velocity, spawn_position, spec_move_forward, Vehicle, FAST_TIER,
    MEDIUM_TIER, REDUCE_TIER,
};
use crate::lane::{Cross, Stage};
use crate::settings::{extremes_current, Settings, Statistics};
use crate::{random_index, Direction, Itineraire, Point};

verus! {

/// Ticks a route may stay granted before the stale-Crossing guard reverts it:
/// the wall-clock ceiling at one tick per frame.
pub const STALE_CROSSING_TICKS: u64 = 90_000;

/// The ordered queue of vehicles sharing one (entry road, turn) identity,
/// its grant stage, and the bookkeeping the scheduler and the near-miss
/// accounting need.
#[derive(Debug)]
pub struct Route {
    /// Queued vehicles, oldest spawn first.
    pub vehicles: Vec<Vehicle>,
    pub itineraire: Itineraire,
    pub cross: Cross,
    /// The coordinate just before the intersection footprint where a
    /// yielding vehicle queues.
    pub stop_point: Point,
    /// Waiting, or Crossing while the scheduler grants this identity the
    /// right of way.
    pub stage: Stage,
    pub is_vehicle_in_intersection: bool,
    pub detected_collisions: bool,
    /// Set by the scheduler when a conflicting route was Crossing while this
    /// one waited; read by the near-miss accounting.
    pub other_route_crossed: bool,
    /// Ticks since this route was last granted Crossing.
    pub time: u64,
}

/// Some queued vehicle is inside the intersection footprint.
pub open spec fn has_crossing(vs: Seq<Vehicle>) -> bool {
    exists|i: int| 0 <= i < vs.len() && vs[i].stage == Stage::Crossing
}

/// Number of queued vehicles inside the intersection footprint.
pub open spec fn count_crossing(vs: Seq<Vehicle>) -> int
    decreases vs.len(),
{
    if vs.len() == 0 {
        0
    } else {
        count_crossing(vs.drop_last()) + if vs.last().stage == Stage::Crossing {
            1int
        } else {
            0int
        }
    }
}

/// The vehicle has not yet passed the route's stop point, in the coordinate
/// its entry road advances along.
pub open spec fn before_stop_point(cross: Cross, stop: Point, pos: Point) -> bool {
    match cross {
        Cross::First => pos.y < stop.y,
        Cross::Second => pos.x < stop.x,
        Cross::Third => pos.x > stop.x,
        Cross::Fourth => pos.y > stop.y,
    }
}

/// Distance from the vehicle to the stop point along the entry axis;
/// positive when the vehicle is still before it.
pub open spec fn stop_gap(cross: Cross, stop: Point, pos: Point) -> int {
    match cross {
        Cross::First => stop.y - pos.y,
        Cross::Second => stop.x - pos.x,
        Cross::Third => pos.x - stop.x,
        Cross::Fourth => pos.y - stop.y,
    }
}

/// Distance from queue position `k` on: the gap of the first vehicle still
/// before the stop point, or the sentinel 10000 when none qualifies.
pub open spec fn stop_distance_from(cross: Cross, stop: Point, vs: Seq<Vehicle>, k: int) -> int
    decreases vs.len() - k,
{
    if k < 0 || k >= vs.len() {
        10000
    } else if before_stop_point(cross, stop, vs[k].position) {
        stop_gap(cross, stop, vs[k].position)
    } else {
        stop_distance_from(cross, stop, vs, k + 1)
    }
}

/// Axis distance used by the local velocity policy: along y for stop points
/// on the vertical centerline, along x otherwise.
pub open spec fn cmp_axis(stop: Point, pos: Point) -> int {
    if stop.x == 0 {
        abs_int(stop.y - pos.y)
    } else {
        abs_int(stop.x - pos.x)
    }
}

/// Route state after deriving its stage from its queue: an empty queue
/// forces Waiting, a stale grant reverts to Waiting, and the grant ends once
/// no queued vehicle is still Crossing.
pub open spec fn spec_route_set_stage(r: Route) -> Route {
    if r.stage == Stage::Waiting {
        r
    } else if r.vehicles@.len() == 0 {
        Route { stage: Stage::Waiting, ..r }
    } else {
        let t1 = if r.time <= STALE_CROSSING_TICKS {
            (r.time + 1) as u64
        } else {
            r.time
        };
        let stage1 = if r.stage == Stage::Crossing && t1 > STALE_CROSSING_TICKS {
            Stage::Waiting
        } else {
            r.stage
        };
        let r1 = Route { time: t1, stage: stage1, ..r };
        let crossing = has_crossing(r.vehicles@);
        let r2 = if !crossing && r1.is_vehicle_in_intersection {
            Route { stage: Stage::Waiting, is_vehicle_in_intersection: false, ..r1 }
        } else {
            r1
        };
        if crossing {
            Route { is_vehicle_in_intersection: true, ..r2 }
        } else {
            r2
        }
    }
}

/// The new spawn is accepted: the queue is empty, or it is below its cap of
/// five and the tail vehicle is strictly farther than the safety distance
/// from the spawn point.
pub open spec fn can_spawn(r: Route, route: Direction, s: Settings) -> bool {
    let pos = spawn_position(route, r.itineraire, s);
    ||| r.vehicles@.len() == 0
    ||| (r.vehicles@.len() < 5 && dist_sq(pos, r.vehicles@.last().position) > s.safety_distance
        * s.safety_distance)
}

/// A vehicle as `add_vehicle` appends it: freshly built for this identity,
/// placed at its map-edge key point, Waiting, with a velocity from the two
/// highest tiers.
pub open spec fn is_fresh_spawn(v: Vehicle, route: Direction, itin: Itineraire, s: Settings) -> bool {
    &&& v.wf_core()
    &&& v.position == spawn_position(route, itin, s)
    &&& v.route == route
    &&& v.itineraire == itin
    &&& (v.velocity == MEDIUM_TIER || v.velocity == FAST_TIER)
    &&& !v.is_changed_direction
    &&& !v.is_stopped
    &&& v.stage == Stage::Waiting
    &&& v.min_vilosity == u32::MAX
    &&& v.max_vilosity == 0
    &&& v.distance_traveled == 0
    &&& v.time == 0
    &&& v.accumulated_x == 0
    &&& v.accumulated_y == 0
}

/// How the local velocity policy leaves one queued vehicle: unchanged on a
/// Right-turn route; forced to the fastest tier while the route is granted;
/// forced to the lowest tier while it waits and the vehicle is crossing or
/// within the safety distance of the stop point; a vehicle already past the
/// intersection is re-randomized over the two highest tiers.
pub open spec fn adjusted_vehicle(r: Route, s: Settings, ov: Vehicle, nv: Vehicle) -> bool {
    if r.itineraire == Itineraire::Right {
        nv == ov
    } else if r.stage == Stage::Crossing && (ov.stage == Stage::Crossing || ov.stage
        == Stage::Waiting) {
        nv == (Vehicle { velocity: FAST_TIER, ..ov })
    } else if r.stage == Stage::Waiting && (ov.stage == Stage::Crossing || cmp_axis(
        r.stop_point,
        ov.position,
    ) < s.safety_distance) {
        nv == (Vehicle { velocity: REDUCE_TIER, ..ov })
    } else if ov.stage == Stage::Crossed {
        nv == (Vehicle { velocity: nv.velocity, ..ov }) && (nv.velocity == MEDIUM_TIER
            || nv.velocity == FAST_TIER)
    } else {
        nv == ov
    }
}

/// Some queued vehicle is crossing or within the safety distance of the stop
/// point: the filter of the waiting-route throttle.
pub open spec fn has_close_vehicle(r: Route, s: Settings) -> bool {
    exists|i: int|
        0 <= i < r.vehicles@.len() && (r.vehicles@[i].stage == Stage::Crossing || cmp_axis(
            r.stop_point,
            r.vehicles@[i].position,
        ) < s.safety_distance)
}

impl Route {
    /// Positions are small enough for exact distance arithmetic.
    pub open spec fn bounded(self) -> bool {
        &&& -2_000_000 <= self.stop_point.x <= 2_000_000
        &&& -2_000_000 <= self.stop_point.y <= 2_000_000
        &&& forall|i: int|
            0 <= i < self.vehicles@.len() ==> -2_000_000 <= (#[trigger] self.vehicles@[i]).position.x
                <= 2_000_000 && -2_000_000 <= self.vehicles@[i].position.y <= 2_000_000
    }

    /// Well-formed with respect to the geometry `s`: every queued vehicle is
    /// well-formed and on the extended canvas, the route is never tagged
    /// Crossed, and the grant counter is within its guard.
    pub open spec fn wf(self, s: Settings) -> bool {
        &&& self.bounded()
        &&& forall|i: int|
            0 <= i < self.vehicles@.len() ==> (#[trigger] self.vehicles@[i]).wf(s)
                && self.vehicles@[i].in_bounds(s)
        &&& self.stage != Stage::Crossed
        &&& self.time <= STALE_CROSSING_TICKS + 1
    }

    pub fn new(itineraire: Itineraire, cross: Cross, stop_point: Point) -> (r: Route)
        ensures
            r.vehicles@ == Seq::<Vehicle>::empty(),
            r.itineraire == itineraire,
            r.cross == cross,
            r.stop_point == stop_point,
            r.stage == Stage::Waiting,
            !r.is_vehicle_in_intersection,
            !r.detected_collisions,
            !r.other_route_crossed,
            r.time == 0,
    {
        let r = Route {
            vehicles: Vec::new(),
            itineraire,
            cross,
            stop_point,
            stage: Stage::Waiting,
            is_vehicle_in_intersection: false,
            detected_collisions: false,
            other_route_crossed: false,
            time: 0,
        };
        proof {
            assert(r.vehicles@ =~= Seq::<Vehicle>::empty());
        }
        r
    }

    /// Whether some queued vehicle is inside the intersection footprint.
    fn any_vehicle_crossing(&self) -> (b: bool)
        ensures
            b == has_crossing(self.vehicles@),
    {
        let mut i: usize = 0;
        while i < self.vehicles.len()
            invariant
                i <= self.vehicles@.len(),
                forall|k: int| 0 <= k < i ==> self.vehicles@[k].stage != Stage::Crossing,
            decreases self.vehicles@.len() - i,
        {
            if self.vehicles[i].stage == Stage::Crossing {
                return true;
            }
            i = i + 1;
        }
        false
    }

    /// Number of queued vehicles inside the intersection footprint.
    pub fn crossing_count(&self) -> (n: usize)
        ensures
            n == count_crossing(self.vehicles@),
    {
        let mut n: usize = 0;
        let mut i: usize = 0;
        while i < self.vehicles.len()
            invariant
                i <= self.vehicles@.len(),
                n == count_crossing(self.vehicles@.take(i as int)),
                n <= i,
            decreases self.vehicles@.len() - i,
        {
            proof {
                assert(self.vehicles@.take(i + 1).drop_last() =~= self.vehicles@.take(i as int));
            }
            if self.vehicles[i].stage == Stage::Crossing {
                n = n + 1;
            }
            i = i + 1;
        }
        proof {
            assert(self.vehicles@.take(self.vehicles@.len() as int) =~= self.vehicles@);
        }
        n
    }

    /// Derives the route's stage from its queue (see `spec_route_set_stage`).
    fn set_stage(&mut self)
        ensures
            *final(self) == spec_route_set_stage(*old(self)),
    {
        if self.stage == Stage::Waiting {
            return ;
        }
        if self.vehicles.len() == 0 {
            self.stage = Stage::Waiting;
            return ;
        }
        if self.time <= STALE_CROSSING_TICKS {
            self.time = self.time + 1;
        }
        if self.stage == Stage::Crossing && self.time > STALE_CROSSING_TICKS {
            self.stage = Stage::Waiting;
        }
        let crossing = self.any_vehicle_crossing();
        if !crossing && self.is_vehicle_in_intersection {
            self.stage = Stage::Waiting;
            self.is_vehicle_in_intersection = false;
        }
        if crossing {
            self.is_vehicle_in_intersection = true;
        }
    }

    /// Distance along the entry axis from the first vehicle still before the
    /// stop point, or the sentinel 10000 when no vehicle qualifies.
    pub fn distance_to_stop_point(&self) -> (r: usize)
        requires
            self.bounded(),
        ensures
            r == stop_distance_from(self.cross, self.stop_point, self.vehicles@, 0),
    {
        let mut i: usize = 0;
        while i < self.vehicles.len()
            invariant
                self.bounded(),
                i <= self.vehicles@.len(),
                stop_distance_from(self.cross, self.stop_point, self.vehicles@, 0)
                    == stop_distance_from(self.cross, self.stop_point, self.vehicles@, i as int),
            decreases self.vehicles@.len() - i,
        {
            let pos = self.vehicles[i].position;
            let stop = self.stop_point;
            match self.cross {
                Cross::First => {
                    if pos.y < stop.y {
                        return (stop.y - pos.y) as usize;
                    }
                },
                Cross::Second => {
                    if pos.x < stop.x {
                        return (stop.x - pos.x) as usize;
                    }
                },
                Cross::Third => {
                    if pos.x > stop.x {
                        return (pos.x - stop.x) as usize;
                    }
                },
                Cross::Fourth => {
                    if pos.y > stop.y {
                        return (pos.y - stop.y) as usize;
                    }
                },
            }
            i = i + 1;
        }
        10000
    }
}

impl Route {
    /// Spawns a vehicle for this identity at its map-edge key point and
    /// appends it, unless the tail vehicle is within the safety distance or
    /// the queue already holds five vehicles; a rejected spawn is dropped.
    pub fn add_vehicle(&mut self, route: Direction, s: &Settings)
        requires
            s.geometry_ok(),
            old(self).wf(*s),
        ensures
            final(self).wf(*s),
            *final(self) == (Route { vehicles: final(self).vehicles, ..*old(self) }),
            can_spawn(*old(self), route, *s) ==> final(self).vehicles@.len() == old(
                self,
            ).vehicles@.len() + 1 && final(self).vehicles@.drop_last() == old(self).vehicles@
                && is_fresh_spawn(
                final(self).vehicles@.last(),
                route,
                old(self).itineraire,
                *s,
            ),
            !can_spawn(*old(self), route, *s) ==> *final(self) == *old(self),
    {
        let mut vehicle = Vehicle::new(route, self.itineraire);
        vehicle.spawn(route, s);
        proof {
            lemma_spawn_position_bounds(route, self.itineraire, *s);
        }
        if self.vehicles.len() > 0 {
            let lastpos = self.vehicles[self.vehicles.len() - 1].position;
            let d = vehicle.distance_to_squared(lastpos);
            let sd: i64 = s.safety_distance as i64;
            proof {
                assert(0 <= sd * sd <= 1_000_000_000_000) by (nonlinear_arith)
                    requires
                        0 <= sd <= 1_000_000,
                ;
            }
            if ((sd * sd) as u64) < d && self.vehicles.len() < 5 {
                self.vehicles.push(vehicle);
                proof {
                    assert(final(self).vehicles@.drop_last() =~= old(self).vehicles@);
                }
            }
        } else {
            self.vehicles.push(vehicle);
            proof {
                assert(final(self).vehicles@.drop_last() =~= old(self).vehicles@);
            }
        }
    }

    /// The local speed policy, run every tick before the global scheduler:
    /// cleared vehicles get a fresh high tier, a granted route pushes its
    /// queue to the fastest tier, and a waiting route throttles vehicles
    /// near the stop point to the lowest tier, counting a near miss the
    /// first time that happens while a conflicting route was crossing.
    #[verifier::rlimit(60)]
    pub fn adjust_velocity_vehicle_in_route(&mut self, s: &Settings, statistic: &mut Statistics)
        requires
            s.wf(),
            old(self).wf(*s),
            old(statistic).close_calls < usize::MAX,
        ensures
            final(self).wf(*s),
            final(self).vehicles@.len() == old(self).vehicles@.len(),
            forall|i: int|
                0 <= i < old(self).vehicles@.len() ==> adjusted_vehicle(
                    *old(self),
                    *s,
                    old(self).vehicles@[i],
                    #[trigger] final(self).vehicles@[i],
                ),
            final(self).itineraire == old(self).itineraire,
            final(self).cross == old(self).cross,
            final(self).stop_point == old(self).stop_point,
            final(self).stage == old(self).stage,
            final(self).is_vehicle_in_intersection == old(self).is_vehicle_in_intersection,
            final(self).time == old(self).time,
            final(self).other_route_crossed == (if old(self).itineraire != Itineraire::Right && old(
                self,
            ).stage == Stage::Crossing && old(self).vehicles@.len() != 0 {
                false
            } else {
                old(self).other_route_crossed
            }),
            final(self).detected_collisions == (if old(self).itineraire == Itineraire::Right {
                old(self).detected_collisions
            } else if old(self).stage == Stage::Crossing && old(self).vehicles@.len() != 0 {
                false
            } else if old(self).stage == Stage::Waiting && old(self).vehicles@.len() != 0 {
                old(self).detected_collisions || (old(self).other_route_crossed && has_close_vehicle(
                    *old(self),
                    *s,
                ))
            } else {
                old(self).detected_collisions
            }),
            *final(statistic) == (Statistics {
                close_calls: final(statistic).close_calls,
                ..*old(statistic)
            }),
            final(statistic).close_calls == old(statistic).close_calls + (if old(self).itineraire
                != Itineraire::Right && old(self).stage == Stage::Waiting && old(
                self,
            ).vehicles@.len() != 0 && !old(self).detected_collisions && old(
                self,
            ).other_route_crossed && has_close_vehicle(*old(self), *s) {
                1int
            } else {
                0int
            }),
    {
        if self.itineraire == Itineraire::Right {
            return ;
        }
        let n = self.vehicles.len();

        let mut i: usize = 0;
        while i < n
            invariant
                n == self.vehicles@.len(),
                n == old(self).vehicles@.len(),
                i <= n,
                old(self).wf(*s),
                *self == (Route { vehicles: self.vehicles, ..*old(self) }),
                forall|k: int| i <= k < n ==> self.vehicles@[k] == old(self).vehicles@[k],
                forall|k: int|
                    0 <= k < i ==> crossed_randomized(
                        old(self).vehicles@[k],
                        #[trigger] self.vehicles@[k],
                    ),
            decreases n - i,
        {
            proof {
                assert(self.vehicles@[i as int] == old(self).vehicles@[i as int]);
                assert(old(self).vehicles@[i as int].wf(*s));
            }
            if self.vehicles[i].stage == Stage::Crossed {
                let t: usize = 2 + random_index(2);
                let nv = self.vehicles[i].velosity_type[t];
                self.vehicles[i].velocity = nv;
            }
            i = i + 1;
        }

        let ghost mid = self.vehicles@;

        if self.stage == Stage::Crossing && self.vehicles.len() != 0 {
            self.detected_collisions = false;
            self.other_route_crossed = false;
            let mut i: usize = 0;
            while i < n
                invariant
                    n == self.vehicles@.len(),
                    n == old(self).vehicles@.len(),
                    n == mid.len(),
                    i <= n,
                    old(self).wf(*s),
                    forall|k: int| 0 <= k < n ==> crossed_randomized(old(self).vehicles@[k], mid[k]),
                    *self == (Route {
                        vehicles: self.vehicles,
                        detected_collisions: false,
                        other_route_crossed: false,
                        ..*old(self)
                    }),
                    forall|k: int| i <= k < n ==> self.vehicles@[k] == mid[k],
                    forall|k: int|
                        0 <= k < i ==> #[trigger] self.vehicles@[k] == (if mid[k].stage
                            == Stage::Crossing || mid[k].stage == Stage::Waiting {
                            Vehicle { velocity: FAST_TIER, ..mid[k] }
                        } else {
                            mid[k]
                        }),
                decreases n - i,
            {
                if self.vehicles[i].stage == Stage::Crossing || self.vehicles[i].stage
                    == Stage::Waiting {
                    self.vehicles[i].velocity = FAST_TIER;
                }
                i = i + 1;
            }
        } else if self.stage == Stage::Waiting && self.vehicles.len() != 0 {
            let mut i: usize = 0;
            while i < n
                invariant
                    n == self.vehicles@.len(),
                    n == old(self).vehicles@.len(),
                    n == mid.len(),
                    i <= n,
                    old(self).wf(*s),
                    s.wf(),
                    old(statistic).close_calls < usize::MAX,
                    old(self).stage == Stage::Waiting,
                    forall|k: int| 0 <= k < n ==> crossed_randomized(old(self).vehicles@[k], mid[k]),
                    *self == (Route {
                        vehicles: self.vehicles,
                        detected_collisions: self.detected_collisions,
                        ..*old(self)
                    }),
                    *statistic == (Statistics {
                        close_calls: statistic.close_calls,
                        ..*old(statistic)
                    }),
                    forall|k: int| i <= k < n ==> self.vehicles@[k] == mid[k],
                    forall|k: int|
                        0 <= k < i ==> #[trigger] self.vehicles@[k] == (if mid[k].stage
                            == Stage::Crossing || cmp_axis(old(self).stop_point, mid[k].position)
                            < s.safety_distance {
                            Vehicle { velocity: REDUCE_TIER, ..mid[k] }
                        } else {
                            mid[k]
                        }),
                    ({
                        let fired = old(self).other_route_crossed && !old(
                            self,
                        ).detected_collisions && exists|k: int|
                            0 <= k < i && (mid[k].stage == Stage::Crossing || cmp_axis(
                                old(self).stop_point,
                                mid[k].position,
                            ) < s.safety_distance);
                        &&& self.detected_collisions == (old(self).detected_collisions || (old(
                            self,
                        ).other_route_crossed && exists|k: int|
                            0 <= k < i && (mid[k].stage == Stage::Crossing || cmp_axis(
                                old(self).stop_point,
                                mid[k].position,
                            ) < s.safety_distance)))
                        &&& statistic.close_calls == old(statistic).close_calls + (if fired {
                            1int
                        } else {
                            0int
                        })
                    }),
                decreases n - i,
            {
                proof {
                    assert(self.vehicles@[i as int] == mid[i as int]);
                    assert(crossed_randomized(old(self).vehicles@[i as int], mid[i as int]));
                    assert(-2_000_000 <= old(self).vehicles@[i as int].position.x <= 2_000_000);
                    assert(-2_000_000 <= old(self).vehicles@[i as int].position.y <= 2_000_000);
                }
                let close = cmp_axis_exec(self.stop_point, self.vehicles[i].position)
                    < s.safety_distance;
                if self.vehicles[i].stage == Stage::Crossing || close {
                    if !self.detected_collisions && self.other_route_crossed {
                        statistic.close_calls = statistic.close_calls + 1;
                        self.detected_collisions = true;
                    }
                    self.vehicles[i].velocity = REDUCE_TIER;
                }
                i = i + 1;
            }
            proof {
                assert forall|k: int| 0 <= k < n implies mid[k].stage == old(
                    self,
                ).vehicles@[k].stage && mid[k].position == old(self).vehicles@[k].position by {
                    assert(crossed_randomized(old(self).vehicles@[k], mid[k]));
                }
                let close_mid = exists|k: int|
                    0 <= k < n && (mid[k].stage == Stage::Crossing || cmp_axis(
                        old(self).stop_point,
                        mid[k].position,
                    ) < s.safety_distance);
                if close_mid {
                    let k = choose|k: int|
                        0 <= k < n && (mid[k].stage == Stage::Crossing || cmp_axis(
                            old(self).stop_point,
                            mid[k].position,
                        ) < s.safety_distance);
                    assert(old(self).vehicles@[k].stage == Stage::Crossing || cmp_axis(
                        old(self).stop_point,
                        old(self).vehicles@[k].position,
                    ) < s.safety_distance);
                    assert(has_close_vehicle(*old(self), *s));
                }
                if has_close_vehicle(*old(self), *s) {
                    let k = choose|k: int|
                        0 <= k < old(self).vehicles@.len() && (old(self).vehicles@[k].stage
                            == Stage::Crossing || cmp_axis(
                            old(self).stop_point,
                            old(self).vehicles@[k].position,
                        ) < s.safety_distance);
                    assert(mid[k].stage == Stage::Crossing || cmp_axis(
                        old(self).stop_point,
                        mid[k].position,
                    ) < s.safety_distance);
                    assert(close_mid);
                }
            }
        }
    }
}

/// Vehicle `i` of the post-policy queue `mid` after its movement this tick:
/// car-following first matches its velocity to the next-older neighbour when
/// close enough, then it advances one kinematic step.
pub open spec fn stepped_vehicle(mid: Seq<Vehicle>, i: int, s: Settings) -> Vehicle {
    let base = mid[i];
    let v = if i > 0 {
        Vehicle {
            velocity: follow_velocity(base, mid[i - 1].position, mid[i - 1].velocity, s),
            ..base
        }
    } else {
        base
    };
    spec_move_forward(v, s)
}

/// The queue from position `i` on after this tick: each vehicle moved, and
/// those that left the extended canvas dropped, order kept.
pub open spec fn surviving_moved(mid: Seq<Vehicle>, s: Settings, i: int) -> Seq<Vehicle>
    decreases mid.len() - i,
{
    if i < 0 || i >= mid.len() {
        Seq::empty()
    } else {
        let mv = stepped_vehicle(mid, i, s);
        if mv.in_bounds(s) {
            seq![mv] + surviving_moved(mid, s, i + 1)
        } else {
            surviving_moved(mid, s, i + 1)
        }
    }
}

/// The vehicles this tick drops from positions `[i, len)` of the
/// post-policy queue `mid`, in the order they are reported to the
/// statistics: the queue is walked tail-to-head, so higher positions come
/// first.
#[verifier::opaque]
pub open spec fn dropped_moved(mid: Seq<Vehicle>, s: Settings, i: int) -> Seq<Vehicle>
    decreases mid.len() - i,
{
    if i < 0 || i >= mid.len() {
        Seq::empty()
    } else {
        let rest = dropped_moved(mid, s, i + 1);
        let mv = stepped_vehicle(mid, i, s);
        if mv.in_bounds(s) {
            rest
        } else {
            rest.push(mv)
        }
    }
}

/// The highest observed velocity of each vehicle, in order.
pub open spec fn max_tiers_of(vs: Seq<Vehicle>) -> Seq<u32> {
    vs.map_values(|v: Vehicle| v.max_vilosity)
}

/// The lowest observed velocity of each vehicle, in order.
pub open spec fn min_tiers_of(vs: Seq<Vehicle>) -> Seq<u32> {
    vs.map_values(|v: Vehicle| v.min_vilosity)
}

/// The elapsed ticks of each vehicle, in order.
pub open spec fn times_of(vs: Seq<Vehicle>) -> Seq<u64> {
    vs.map_values(|v: Vehicle| v.time)
}

/// The near-miss latch of a route after one tick's local velocity policy.
pub open spec fn post_policy_detected(r: Route, s: Settings) -> bool {
    let r1 = spec_route_set_stage(r);
    if r1.itineraire == Itineraire::Right {
        r1.detected_collisions
    } else if r1.stage == Stage::Crossing && r1.vehicles@.len() != 0 {
        false
    } else if r1.stage == Stage::Waiting && r1.vehicles@.len() != 0 {
        r1.detected_collisions || (r1.other_route_crossed && has_close_vehicle(r1, s))
    } else {
        r1.detected_collisions
    }
}

/// The "another route crossed while I waited" flag after one tick's local
/// velocity policy: cleared once the route itself is granted.
pub open spec fn post_policy_other_crossed(r: Route) -> bool {
    let r1 = spec_route_set_stage(r);
    if r1.itineraire != Itineraire::Right && r1.stage == Stage::Crossing && r1.vehicles@.len()
        != 0 {
        false
    } else {
        r1.other_route_crossed
    }
}

/// Whether the near-miss counter fires this tick: the route waits with a
/// vehicle crossing or near its stop point, a conflicting route crossed
/// while it waited, and no near miss was recorded for this wait yet.
pub open spec fn near_miss_fired(r: Route, s: Settings) -> bool {
    let r1 = spec_route_set_stage(r);
    r1.itineraire != Itineraire::Right && r1.stage == Stage::Waiting && r1.vehicles@.len() != 0
        && !r1.detected_collisions && r1.other_route_crossed && has_close_vehicle(r1, s)
}

/// Appending to the right half of a concatenation appends to the whole.
proof fn lemma_concat_push<A>(a: Seq<A>, b: Seq<A>, x: A)
    ensures
        (a + b).push(x) == a + b.push(x),
{
    assert((a + b).push(x) =~= a + b.push(x));
}

/// The per-vehicle metric sequences distribute over appending a vehicle.
proof fn lemma_metrics_push(d: Seq<Vehicle>, v: Vehicle)
    ensures
        max_tiers_of(d.push(v)) == max_tiers_of(d).push(v.max_vilosity),
        min_tiers_of(d.push(v)) == min_tiers_of(d).push(v.min_vilosity),
        times_of(d.push(v)) == times_of(d).push(v.time),
{
    assert(max_tiers_of(d.push(v)) =~= max_tiers_of(d).push(v.max_vilosity));
    assert(min_tiers_of(d.push(v)) =~= min_tiers_of(d).push(v.min_vilosity));
    assert(times_of(d.push(v)) =~= times_of(d).push(v.time));
}

/// Everything one tick of `Route::update` does, relating the old and new
/// route and the old and new statistics: the stage derivation, the local
/// velocity policy with its near-miss accounting, the per-vehicle
/// car-following step against the next-older neighbour, and the reporting
/// of every vehicle that left the map, tail-to-head, each exactly once.
pub open spec fn route_update_rel(
    oldr: Route,
    newr: Route,
    olds: Statistics,
    news: Statistics,
    s: Settings,
) -> bool {
    &&& newr.itineraire == oldr.itineraire
    &&& newr.cross == oldr.cross
    &&& newr.stop_point == oldr.stop_point
    &&& newr.stage == spec_route_set_stage(oldr).stage
    &&& newr.time == spec_route_set_stage(oldr).time
    &&& newr.is_vehicle_in_intersection == spec_route_set_stage(oldr).is_vehicle_in_intersection
    &&& newr.detected_collisions == post_policy_detected(oldr, s)
    &&& newr.other_route_crossed == post_policy_other_crossed(oldr)
    &&& newr.vehicles@.len() <= oldr.vehicles@.len()
    &&& news.close_calls == olds.close_calls + (if near_miss_fired(oldr, s) {
        1int
    } else {
        0int
    })
    &&& news.max_vehicles_passed == olds.max_vehicles_passed + (oldr.vehicles@.len()
        - newr.vehicles@.len())
    &&& (exists|mid: Seq<Vehicle>|
        {
            &&& #[trigger] mid.len() == oldr.vehicles@.len()
            &&& (forall|i: int|
                0 <= i < mid.len() ==> adjusted_vehicle(
                    spec_route_set_stage(oldr),
                    s,
                    oldr.vehicles@[i],
                    #[trigger] mid[i],
                ))
            &&& newr.vehicles@ == surviving_moved(mid, s, 0)
            &&& news.max_velocities@ == olds.max_velocities@ + max_tiers_of(
                dropped_moved(mid, s, 0),
            )
            &&& news.min_velocities@ == olds.min_velocities@ + min_tiers_of(
                dropped_moved(mid, s, 0),
            )
            &&& news.time_to_pass@ == olds.time_to_pass@ + times_of(dropped_moved(mid, s, 0))
        })
    &&& (newr.vehicles@.len() == oldr.vehicles@.len() ==> news == (Statistics {
        close_calls: news.close_calls,
        ..olds
    }))
    &&& (newr.vehicles@.len() != oldr.vehicles@.len() ==> extremes_current(news))
}

/// Processes queue position `i` of one tick's movement phase: applies
/// car-following against the next-older neighbour, advances the vehicle one
/// kinematic step, and drops and reports it if it left the map. Positions
/// above `i` have already been processed this tick.
#[verifier::rlimit(100)]
fn advance_one(
    vehicles: &mut Vec<Vehicle>,
    statistic: &mut Statistics,
    i: usize,
    s: &Settings,
    Ghost(midv): Ghost<Seq<Vehicle>>,
    Ghost(stat_mid): Ghost<Statistics>,
)
    requires
        s.wf(),
        i < midv.len(),
        forall|k: int|
            0 <= k < midv.len() ==> (#[trigger] midv[k]).wf(*s) && midv[k].in_bounds(*s),
        old(vehicles)@ == midv.take(i + 1) + surviving_moved(midv, *s, i + 1),
        forall|k: int|
            i + 1 <= k < old(vehicles)@.len() ==> (#[trigger] old(vehicles)@[k]).wf(*s)
                && old(vehicles)@[k].in_bounds(*s),
        old(statistic).max_vehicles_passed < usize::MAX,
        old(statistic).max_vehicles_passed == stat_mid.max_vehicles_passed + dropped_moved(
            midv,
            *s,
            i + 1,
        ).len(),
        old(statistic).close_calls == stat_mid.close_calls,
        old(statistic).max_velocities@ == stat_mid.max_velocities@ + max_tiers_of(
            dropped_moved(midv, *s, i + 1),
        ),
        old(statistic).min_velocities@ == stat_mid.min_velocities@ + min_tiers_of(
            dropped_moved(midv, *s, i + 1),
        ),
        old(statistic).time_to_pass@ == stat_mid.time_to_pass@ + times_of(
            dropped_moved(midv, *s, i + 1),
        ),
        dropped_moved(midv, *s, i + 1).len() == 0 ==> *old(statistic) == stat_mid,
        dropped_moved(midv, *s, i + 1).len() != 0 ==> extremes_current(*old(statistic)),
    ensures
        final(vehicles)@ == midv.take(i as int) + surviving_moved(midv, *s, i as int),
        forall|k: int| 0 <= k < i ==> final(vehicles)@[k] == midv[k],
        forall|k: int|
            i <= k < final(vehicles)@.len() ==> (#[trigger] final(vehicles)@[k]).wf(*s)
                && final(vehicles)@[k].in_bounds(*s),
        final(vehicles)@.len() <= old(vehicles)@.len(),
        final(statistic).close_calls == stat_mid.close_calls,
        final(statistic).max_vehicles_passed == old(statistic).max_vehicles_passed + (
        old(vehicles)@.len() - final(vehicles)@.len()),
        final(statistic).max_vehicles_passed == stat_mid.max_vehicles_passed + dropped_moved(
            midv,
            *s,
            i as int,
        ).len(),
        final(statistic).max_velocities@ == stat_mid.max_velocities@ + max_tiers_of(
            dropped_moved(midv, *s, i as int),
        ),
        final(statistic).min_velocities@ == stat_mid.min_velocities@ + min_tiers_of(
            dropped_moved(midv, *s, i as int),
        ),
        final(statistic).time_to_pass@ == stat_mid.time_to_pass@ + times_of(
            dropped_moved(midv, *s, i as int),
        ),
        dropped_moved(midv, *s, i as int).len() == 0 ==> *final(statistic) == stat_mid,
        dropped_moved(midv, *s, i as int).len() != 0 ==> extremes_current(*final(statistic)),
{
    proof {
        assert(vehicles@[i as int] == midv[i as int]);
        assert(midv[i as int].wf(*s));
    }
    if i > 0 {
        proof {
            assert(vehicles@[i - 1] == midv[i - 1]);
            assert(midv[i - 1].wf(*s));
        }
        let other_pos = vehicles[i - 1].position;
        let other_vel = vehicles[i - 1].velocity;
        vehicles[i].apply_follow(other_pos, other_vel, s);
    }
    vehicles[i].update(s);
    proof {
        assert(vehicles@[i as int] == stepped_vehicle(midv, i as int, *s));
        assert(vehicles@ =~= midv.take(i as int).push(stepped_vehicle(midv, i as int, *s))
            + surviving_moved(midv, *s, i + 1));
    }
    if vehicles[i].has_reached_end(s) {
        statistic.retrieve(&vehicles[i]);
        vehicles.remove(i);
        proof {
            reveal(dropped_moved);
            let mv = stepped_vehicle(midv, i as int, *s);
            let d1 = dropped_moved(midv, *s, i + 1);
            assert(vehicles@ =~= midv.take(i as int) + surviving_moved(midv, *s, i as int));
            assert(dropped_moved(midv, *s, i as int) == d1.push(mv));
            lemma_metrics_push(d1, mv);
            lemma_concat_push(stat_mid.max_velocities@, max_tiers_of(d1), mv.max_vilosity);
            lemma_concat_push(stat_mid.min_velocities@, min_tiers_of(d1), mv.min_vilosity);
            lemma_concat_push(stat_mid.time_to_pass@, times_of(d1), mv.time);
        }
    } else {
        proof {
            assert(vehicles@ =~= midv.take(i as int) + surviving_moved(midv, *s, i as int));
            reveal(dropped_moved);
            assert(dropped_moved(midv, *s, i as int) == dropped_moved(midv, *s, i + 1));
        }
    }
}

impl Route {
    /// One tick of this route: derive the stage, apply the local velocity
    /// policy, advance the queue tail-to-head with car-following against the
    /// next-older neighbour, and drop vehicles that left the map, reporting
    /// each to the statistics.
    #[verifier::rlimit(100)]
    pub fn update(&mut self, s: &Settings, statistic: &mut Statistics)
        requires
            s.wf(),
            old(self).wf(*s),
            old(statistic).close_calls < usize::MAX,
            old(statistic).max_vehicles_passed + old(self).vehicles@.len() < usize::MAX,
        ensures
            final(self).wf(*s),
            forall|k: int|
                0 <= k < final(self).vehicles@.len() ==> (#[trigger] final(self).vehicles@[k]).in_bounds(*s)
                    && final(self).vehicles@[k].wf(*s),
            final(statistic).close_calls <= old(statistic).close_calls + 1,
            route_update_rel(*old(self), *final(self), *old(statistic), *final(statistic), *s),
    {
        self.set_stage();
        self.adjust_velocity_vehicle_in_route(s, statistic);

        let ghost mid = *self;
        let ghost midv = self.vehicles@;
        let ghost stat_mid = *statistic;
        proof {
            assert(self.vehicles@ =~= midv.take(midv.len() as int) + surviving_moved(
                midv,
                *s,
                midv.len() as int,
            ));
            reveal(dropped_moved);
            assert(dropped_moved(midv, *s, midv.len() as int) =~= Seq::<Vehicle>::empty());
            assert(statistic.max_velocities@ =~= stat_mid.max_velocities@ + max_tiers_of(
                dropped_moved(midv, *s, midv.len() as int),
            ));
            assert(statistic.min_velocities@ =~= stat_mid.min_velocities@ + min_tiers_of(
                dropped_moved(midv, *s, midv.len() as int),
            ));
            assert(statistic.time_to_pass@ =~= stat_mid.time_to_pass@ + times_of(
                dropped_moved(midv, *s, midv.len() as int),
            ));
        }

        let mut i: usize = self.vehicles.len();
        while i > 0
            invariant
                s.wf(),
                i <= midv.len(),
                midv == mid.vehicles@,
                self.vehicles@.len() <= mid.vehicles@.len(),
                mid.wf(*s),
                *self == (Route { vehicles: self.vehicles, ..mid }),
                self.vehicles@ == midv.take(i as int) + surviving_moved(midv, *s, i as int),
                forall|k: int| 0 <= k < i ==> self.vehicles@[k] == mid.vehicles@[k],
                forall|k: int|
                    i <= k < self.vehicles@.len() ==> (#[trigger] self.vehicles@[k]).in_bounds(*s)
                        && self.vehicles@[k].wf(*s),
                statistic.max_vehicles_passed == stat_mid.max_vehicles_passed + (
                mid.vehicles@.len() - self.vehicles@.len()),
                statistic.max_vehicles_passed == stat_mid.max_vehicles_passed + dropped_moved(
                    midv,
                    *s,
                    i as int,
                ).len(),
                statistic.close_calls == stat_mid.close_calls,
                statistic.max_velocities@ == stat_mid.max_velocities@ + max_tiers_of(
                    dropped_moved(midv, *s, i as int),
                ),
                statistic.min_velocities@ == stat_mid.min_velocities@ + min_tiers_of(
                    dropped_moved(midv, *s, i as int),
                ),
                statistic.time_to_pass@ == stat_mid.time_to_pass@ + times_of(
                    dropped_moved(midv, *s, i as int),
                ),
                dropped_moved(midv, *s, i as int).len() == 0 ==> *statistic == stat_mid,
                dropped_moved(midv, *s, i as int).len() != 0 ==> extremes_current(*statistic),
                stat_mid.max_vehicles_passed + mid.vehicles@.len() < usize::MAX,
            decreases i,
        {
            i = i - 1;
            advance_one(&mut self.vehicles, statistic, i, s, Ghost(midv), Ghost(stat_mid));
        }
        proof {
            assert(self.vehicles@ =~= surviving_moved(midv, *s, 0));
            assert(midv.len() == old(self).vehicles@.len());
            let dropped = dropped_moved(midv, *s, 0);
            assert(old(self).vehicles@.len() - final(self).vehicles@.len() == dropped.len());
            assert(final(self).vehicles@.len() == old(self).vehicles@.len() ==> dropped.len()
                == 0);
            assert(final(self).vehicles@.len() != old(self).vehicles@.len() ==> dropped.len()
                != 0);
            assert({
                &&& midv.len() == old(self).vehicles@.len()
                &&& (forall|k: int|
                    0 <= k < midv.len() ==> adjusted_vehicle(
                        spec_route_set_stage(*old(self)),
                        *s,
                        old(self).vehicles@[k],
                        #[trigger] midv[k],
                    ))
                &&& final(self).vehicles@ == surviving_moved(midv, *s, 0)
                &&& final(statistic).max_velocities@ == old(statistic).max_velocities@
                    + max_tiers_of(dropped_moved(midv, *s, 0))
                &&& final(statistic).min_velocities@ == old(statistic).min_velocities@
                    + min_tiers_of(dropped_moved(midv, *s, 0))
                &&& final(statistic).time_to_pass@ == old(statistic).time_to_pass@ + times_of(
                    dropped_moved(midv, *s, 0),
                )
            });
        }
    }
}

/// `nv` is `ov` after the cleared-vehicle re-randomization: unchanged unless
/// `ov` had cleared the intersection, in which case only its velocity moved,
/// to one of the two highest tiers.
pub open spec fn crossed_randomized(ov: Vehicle, nv: Vehicle) -> bool {
    if ov.stage == Stage::Crossed {
        nv == (Vehicle { velocity: nv.velocity, ..ov }) && (nv.velocity == MEDIUM_TIER
            || nv.velocity == FAST_TIER)
    } else {
        nv == ov
    }
}

/// The spawn key points all lie on the canvas.
proof fn lemma_spawn_position_bounds(route: Direction, itin: Itineraire, s: Settings)
    requires
        s.geometry_ok(),
    ensures
        0 <= spawn_position(route, itin, s).x <= s.width,
        0 <= spawn_position(route, itin, s).y <= s.height,
        -2_000_000 <= spawn_position(route, itin, s).x <= 2_000_000,
        -2_000_000 <= spawn_position(route, itin, s).y <= 2_000_000,
{
    let vk = s.vertical_key_points@;
    let hk = s.horizontal_key_points@;
    assert forall|i: int| 0 < i < 16 implies vk[0] < #[trigger] vk[i] && vk[i] < vk[16] by {
    }
    assert forall|i: int| 0 < i < 16 implies hk[0] < #[trigger] hk[i] && hk[i] < hk[16] by {
    }
    assert(vk[0] == 0 && vk[16] == s.width);
    assert(hk[0] == 0 && hk[16] == s.height);
}

fn cmp_axis_exec(stop: Point, pos: Point) -> (r: i32)
    requires
        -2_000_000 <= stop.x <= 2_000_000,
        -2_000_000 <= stop.y <= 2_000_000,
        -2_000_000 <= pos.x <= 2_000_000,
        -2_000_000 <= pos.y <= 2_000_000,
    ensures
        r == cmp_axis(stop, pos),
{
    if stop.x == 0 {
        let d = stop.y - pos.y;
        if d >= 0 {
            d
        } else {
            -d
        }
    } else {
        let d = stop.x - pos.x;
        if d >= 0 {
            d
        } else {
            -d
        }
    }
}

} // verus!
