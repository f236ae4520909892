use vstd::prelude::*;

use crate::routes::{route_update_rel, spec_route_set_stage, Route};
use crate::settings::{Settings, Statistics};
use crate::{Itineraire, Point};

verus! {

/// One of the four incoming roads, named in the order the lanes are created.
#[derive(Debug, Clone, Copy, PartialEq, Eq, Structural)]
pub enum Cross {
    First,
    Second,
    Third,
    Fourth,
}

/// Lifecycle tag of a vehicle or a route with respect to the intersection
/// footprint.
#[derive(Debug, Clone, Copy, PartialEq, Eq, Structural)]
pub enum Stage {
    Crossing,
    Crossed,
    Waiting,
}

/// Position of a stage in the lifecycle order Waiting, Crossing, Crossed.
pub open spec fn stage_rank(s: Stage) -> int {
    match s {
        Stage::Waiting => 0,
        Stage::Crossing => 1,
        Stage::Crossed => 2,
    }
}

/// `a` comes no later than `b` in the lifecycle order.
pub open spec fn stage_le(a: Stage, b: Stage) -> bool {
    stage_rank(a) <= stage_rank(b)
}

/// The turn that the route at index `j` of a lane serves.
pub open spec fn itin_of_index(j: int) -> Itineraire {
    if j == 0 {
        Itineraire::Left
    } else if j == 1 {
        Itineraire::Straight
    } else {
        Itineraire::Right
    }
}

/// The stop point of a lane: the key coordinate just before the intersection
/// footprint on its entry axis.
pub open spec fn lane_stop_point(cross: Cross, s: Settings) -> Point {
    let vk = s.vertical_key_points@;
    let hk = s.horizontal_key_points@;
    match cross {
        Cross::First => Point { x: 0, y: hk[2] },
        Cross::Second => Point { x: vk[2], y: 0 },
        Cross::Third => Point { x: vk[15], y: 0 },
        Cross::Fourth => Point { x: 0, y: hk[15] },
    }
}

/// The three turn routes of one entry road; purely structural.
#[derive(Debug)]
pub struct Lane {
    /// The Left, Straight and Right routes, in that order.
    pub routes: Vec<Route>,
    pub cross: Cross,
    pub stage: Stage,
    pub stop_point: Point,
}

impl Lane {
    /// The lane holds its three routes in turn order, each carrying the
    /// lane's own entry road and stop point, and each well-formed.
    pub open spec fn wf(self, s: Settings) -> bool {
        &&& self.routes@.len() == 3
        &&& forall|j: int|
            0 <= j < 3 ==> (#[trigger] self.routes@[j]).wf(s) && self.routes@[j].itineraire
                == itin_of_index(j) && self.routes@[j].cross == self.cross
                && self.routes@[j].stop_point == lane_stop_point(self.cross, s)
    }

    pub fn new(cross: Cross, s: &Settings) -> (r: Lane)
        requires
            s.wf(),
        ensures
            r.wf(*s),
            r.cross == cross,
            r.stage == Stage::Waiting,
            r.stop_point == lane_stop_point(cross, *s),
            forall|j: int|
                0 <= j < 3 ==> (#[trigger] r.routes@[j]).vehicles@ == Seq::<
                    crate::cars::Vehicle,
                >::empty() && r.routes@[j].stage == Stage::Waiting
                && !r.routes@[j].other_route_crossed && r.routes@[j].time == 0
                && !r.routes@[j].is_vehicle_in_intersection && !r.routes@[j].detected_collisions,
    {
        let stop_point = match cross {
            Cross::First => Point::new(0, s.horizontal_key_points[2]),
            Cross::Second => Point::new(s.vertical_key_points[2], 0),
            Cross::Third => Point::new(s.vertical_key_points[15], 0),
            Cross::Fourth => Point::new(0, s.horizontal_key_points[15]),
        };
        let routes: Vec<Route> = vec![
            Route::new(Itineraire::Left, cross, stop_point),
            Route::new(Itineraire::Straight, cross, stop_point),
            Route::new(Itineraire::Right, cross, stop_point),
        ];
        Lane { routes, cross, stage: Stage::Waiting, stop_point }
    }

    /// One tick of the lane: update its three routes, newest-created first.
    pub fn update(&mut self, s: &Settings, statistic: &mut Statistics)
        requires
            s.wf(),
            old(self).wf(*s),
            old(statistic).close_calls + 3 < usize::MAX,
            old(statistic).max_vehicles_passed + old(self).routes@[0].vehicles@.len() + old(
                self,
            ).routes@[1].vehicles@.len() + old(self).routes@[2].vehicles@.len() + 3 < usize::MAX,
        ensures
            final(self).wf(*s),
            lane_update_rel(*old(self), *final(self), *old(statistic), *final(statistic), *s),
            forall|j: int|
                0 <= j < 3 ==> (#[trigger] final(self).routes@[j]).stage == spec_route_set_stage(
                    old(self).routes@[j],
                ).stage,
            final(statistic).close_calls <= old(statistic).close_calls + 3,
            final(statistic).max_vehicles_passed <= old(statistic).max_vehicles_passed + old(
                self,
            ).routes@[0].vehicles@.len() + old(self).routes@[1].vehicles@.len() + old(
                self,
            ).routes@[2].vehicles@.len(),
    {
        self.routes[2].update(s, statistic);
        let ghost sa = *statistic;
        self.routes[1].update(s, statistic);
        let ghost sb = *statistic;
        self.routes[0].update(s, statistic);
        proof {
            assert(route_update_rel(
                old(self).routes@[2],
                final(self).routes@[2],
                *old(statistic),
                sa,
                *s,
            ));
            assert(route_update_rel(old(self).routes@[1], final(self).routes@[1], sa, sb, *s));
            assert(route_update_rel(
                old(self).routes@[0],
                final(self).routes@[0],
                sb,
                *final(statistic),
                *s,
            ));
        }
    }
}

/// Everything one tick of `Lane::update` does: its three routes take one
/// `Route::update` tick each, newest-created first, threading the
/// statistics through the two intermediate states.
pub open spec fn lane_update_rel(
    oldl: Lane,
    newl: Lane,
    olds: Statistics,
    news: Statistics,
    s: Settings,
) -> bool {
    &&& newl.cross == oldl.cross
    &&& newl.stage == oldl.stage
    &&& newl.stop_point == oldl.stop_point
    &&& oldl.routes@.len() == 3
    &&& newl.routes@.len() == 3
    &&& (exists|sa: Statistics, sb: Statistics|
        #![trigger route_update_rel(oldl.routes@[1], newl.routes@[1], sa, sb, s)]
        {
            &&& route_update_rel(oldl.routes@[2], newl.routes@[2], olds, sa, s)
            &&& route_update_rel(oldl.routes@[1], newl.routes@[1], sa, sb, s)
            &&& route_update_rel(oldl.routes@[0], newl.routes@[0], sb, news, s)
        })
}

} // verus!
