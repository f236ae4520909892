use vstd::prelude::*;

use crate::cars::{max_u32, min_u32, Vehicle};
use crate::lane::Cross;
use crate::Itineraire;

verus! {

/// Immutable geometry: key coordinates for lane centerlines, the intersection
/// footprint boundaries, and the safety distance, derived once from the canvas
/// size, the vehicle size, the lane gap and the safety distance.
#[derive(Debug)]
pub struct Settings {
    pub width: i32,
    pub height: i32,
    pub vehicle: i32,
    pub gap: i32,
    pub safety_distance: i32,
    pub offset_road: i32,

    pub vertical_key_points: Vec<i32>,
    pub horizontal_key_points: Vec<i32>,
}

/// The value of the `i`-th key point along one dimension, for a canvas of size
/// `dim`: a ladder of lane centerlines and lane borders around the midpoint.
pub open spec fn key_point(dim: int, half_dim: int, off: int, offs: int, i: int) -> int {
    if i == 0 {
        0
    } else if i == 1 {
        half_dim - 3 * off - off / 2 - offs / 2
    } else if i == 2 {
        half_dim - 3 * off
    } else if i == 3 {
        half_dim - 2 * off - off / 2 - offs / 2
    } else if i == 4 {
        half_dim - 2 * off
    } else if i == 5 {
        half_dim - off - off / 2 - offs / 2
    } else if i == 6 {
        half_dim - off
    } else if i == 7 {
        half_dim - off / 2 - offs / 2
    } else if i == 8 {
        half_dim
    } else if i == 9 {
        half_dim + off / 2 - offs / 2
    } else if i == 10 {
        half_dim + off
    } else if i == 11 {
        half_dim + off + off / 2 - offs / 2
    } else if i == 12 {
        half_dim + 2 * off
    } else if i == 13 {
        half_dim + 2 * off + off / 2 - offs / 2
    } else if i == 14 {
        half_dim + 3 * off
    } else if i == 15 {
        half_dim + 3 * off + off / 2 - offs / 2
    } else {
        dim
    }
}

impl Settings {
    /// Both key-point arrays hold exactly the seventeen ladder values.
    pub open spec fn wf(self) -> bool {
        let off = self.offset_road as int;
        let offs = self.gap + self.vehicle;
        &&& 0 <= self.width <= 1_000_000
        &&& 0 <= self.height <= 1_000_000
        &&& 0 <= self.vehicle <= 10_000
        &&& 0 <= self.gap <= 10_000
        &&& 0 <= self.safety_distance <= 1_000_000
        &&& self.offset_road == self.gap + 2 * self.vehicle
        &&& self.vertical_key_points.len() == 17
        &&& self.horizontal_key_points.len() == 17
        &&& forall|i: int| 0 <= i < 17 ==>
            self.vertical_key_points[i] == key_point(
                self.width as int, self.width as int / 2, off, offs, i)
        &&& forall|i: int| 0 <= i < 17 ==>
            self.horizontal_key_points[i] == key_point(
                self.height as int, self.height as int / 2, off, offs, i)
    }

    pub fn new(width: i32, height: i32, vehicle: i32, gap: i32, safety_distance: i32) -> (r:
        Settings)
        requires
            0 <= width <= 1_000_000,
            0 <= height <= 1_000_000,
            0 <= vehicle <= 10_000,
            0 <= gap <= 10_000,
            0 <= safety_distance <= 1_000_000,
        ensures
            r.wf(),
            r.width == width,
            r.height == height,
            r.vehicle == vehicle,
            r.gap == gap,
            r.safety_distance == safety_distance,
    {
        let half_width = width / 2;
        let half_height = height / 2;
        let vehicle_width = 2 * vehicle;
        let offset_road = gap + vehicle_width;
        let offset_road_s = gap + vehicle;

        let vertical_key_points = map_key_points(width, half_width, offset_road, offset_road_s);
        let horizontal_key_points = map_key_points(height, half_height, offset_road, offset_road_s);

        Settings {
            width,
            height,
            vehicle,
            gap,
            safety_distance,
            offset_road,
            vertical_key_points,
            horizontal_key_points,
        }
    }
}

impl Settings {
    /// Sane geometry: besides `wf`, the key points of each axis strictly
    /// ascend from the map edge at zero to the opposite edge.
    pub open spec fn geometry_ok(self) -> bool {
        &&& self.wf()
        &&& forall|i: int, j: int|
            0 <= i < j < 17 ==> self.vertical_key_points[i] < self.vertical_key_points[j]
        &&& forall|i: int, j: int|
            0 <= i < j < 17 ==> self.horizontal_key_points[i] < self.horizontal_key_points[j]
    }

    /// Startup-time configuration check: whether the computed key points
    /// strictly ascend along both axes.
    pub fn check_geometry(&self) -> (b: bool)
        requires
            self.wf(),
        ensures
            b == self.geometry_ok(),
    {
        let va = ascending(&self.vertical_key_points);
        let ha = ascending(&self.horizontal_key_points);
        va && ha
    }
}

/// Whether the entries of `v` strictly ascend.
fn ascending(v: &Vec<i32>) -> (b: bool)
    ensures
        b == forall|i: int, j: int| 0 <= i < j < v.len() ==> v[i] < v[j],
{
    let n = v.len();
    if n <= 1 {
        return true;
    }
    let mut k: usize = 0;
    while k < n - 1
        invariant
            n == v.len(),
            n >= 1,
            k <= n - 1,
            forall|i: int, j: int| 0 <= i < j <= k ==> v[i] < v[j],
        decreases n - 1 - k,
    {
        if v[k] >= v[k + 1] {
            return false;
        }
        k = k + 1;
    }
    true
}

fn map_key_points(dim: i32, half_dim: i32, off: i32, offs: i32) -> (r: Vec<i32>)
    requires
        0 <= dim <= 1_000_000,
        half_dim == dim / 2,
        0 <= off <= 30_000,
        0 <= offs <= off,
    ensures
        r.len() == 17,
        forall|i: int| 0 <= i < 17 ==> r[i] == key_point(
            dim as int, half_dim as int, off as int, offs as int, i),
{
    let center_shift: i32 = off / 2 - offs / 2;
    let k1 = half_dim - 3 * off - off / 2 - offs / 2;
    let k2 = half_dim - 3 * off;
    let k3 = half_dim - 2 * off - off / 2 - offs / 2;
    let k4 = half_dim - 2 * off;
    let k5 = half_dim - off - off / 2 - offs / 2;
    let k6 = half_dim - off;
    let k7 = half_dim - off / 2 - offs / 2;
    let k9 = half_dim + center_shift;
    let k10 = half_dim + off;
    let k11 = half_dim + off + center_shift;
    let k12 = half_dim + 2 * off;
    let k13 = half_dim + 2 * off + center_shift;
    let k14 = half_dim + 3 * off;
    let k15 = half_dim + 3 * off + center_shift;
    let r: Vec<i32> = vec![
        0,
        k1,
        k2,
        k3,
        k4,
        k5,
        k6,
        k7,
        half_dim,
        k9,
        k10,
        k11,
        k12,
        k13,
        k14,
        k15,
        dim,
    ];
    r
}

/// Largest entry of `s`, or zero when `s` is empty.
pub open spec fn seq_max_u32(s: Seq<u32>) -> u32
    decreases s.len(),
{
    if s.len() == 0 {
        0
    } else {
        max_u32(s.last(), seq_max_u32(s.drop_last()))
    }
}

/// Smallest entry of `s`, or `u32::MAX` when `s` is empty.
pub open spec fn seq_min_u32(s: Seq<u32>) -> u32
    decreases s.len(),
{
    if s.len() == 0 {
        u32::MAX
    } else {
        min_u32(s.last(), seq_min_u32(s.drop_last()))
    }
}

/// Largest entry of `s`, or zero when `s` is empty.
pub open spec fn seq_max_u64(s: Seq<u64>) -> u64
    decreases s.len(),
{
    if s.len() == 0 {
        0
    } else if s.last() >= seq_max_u64(s.drop_last()) {
        s.last()
    } else {
        seq_max_u64(s.drop_last())
    }
}

/// Smallest entry of `s`, or `u64::MAX` when `s` is empty.
pub open spec fn seq_min_u64(s: Seq<u64>) -> u64
    decreases s.len(),
{
    if s.len() == 0 {
        u64::MAX
    } else if s.last() <= seq_min_u64(s.drop_last()) {
        s.last()
    } else {
        seq_min_u64(s.drop_last())
    }
}

/// The four running extremes agree with the recorded per-vehicle vectors.
pub open spec fn extremes_current(st: Statistics) -> bool {
    &&& st.max_velocity == seq_max_u32(st.max_velocities@)
    &&& st.min_velocity == seq_min_u32(st.min_velocities@)
    &&& st.max_time_to_pass == seq_max_u64(st.time_to_pass@)
    &&& st.min_time_to_pass == seq_min_u64(st.time_to_pass@)
}

/// Completion metrics of finished vehicles and the count of detected near
/// misses. Velocities are in tenths of a unit per tick, times in ticks.
#[derive(Debug)]
pub struct Statistics {
    pub max_vehicles_passed: usize,
    pub max_velocities: Vec<u32>,
    pub min_velocities: Vec<u32>,
    pub time_to_pass: Vec<u64>,
    pub max_velocity: u32,
    pub min_velocity: u32,
    pub max_time_to_pass: u64,
    pub min_time_to_pass: u64,
    pub close_calls: usize,
}

impl Statistics {
    pub fn new() -> (r: Statistics)
        ensures
            r.max_vehicles_passed == 0,
            r.max_velocities@ == Seq::<u32>::empty(),
            r.min_velocities@ == Seq::<u32>::empty(),
            r.time_to_pass@ == Seq::<u64>::empty(),
            r.max_velocity == 0,
            r.min_velocity == 0,
            r.max_time_to_pass == 0,
            r.min_time_to_pass == 0,
            r.close_calls == 0,
    {
        let r = Statistics {
            max_vehicles_passed: 0,
            max_velocities: Vec::new(),
            min_velocities: Vec::new(),
            time_to_pass: Vec::new(),
            max_velocity: 0,
            min_velocity: 0,
            max_time_to_pass: 0,
            min_time_to_pass: 0,
            close_calls: 0,
        };
        proof {
            assert(r.max_velocities@ =~= Seq::<u32>::empty());
            assert(r.min_velocities@ =~= Seq::<u32>::empty());
            assert(r.time_to_pass@ =~= Seq::<u64>::empty());
        }
        r
    }

    /// Records the terminal metrics of a vehicle leaving the map: its
    /// extremal observed velocities and its elapsed time, and the extremes
    /// over all recorded vehicles.
    pub fn retrieve(&mut self, vehicle: &Vehicle)
        requires
            old(self).max_vehicles_passed < usize::MAX,
        ensures
            final(self).max_vehicles_passed == old(self).max_vehicles_passed + 1,
            final(self).max_velocities@ == old(self).max_velocities@.push(vehicle.max_vilosity),
            final(self).min_velocities@ == old(self).min_velocities@.push(vehicle.min_vilosity),
            final(self).time_to_pass@ == old(self).time_to_pass@.push(vehicle.time),
            final(self).max_velocity == seq_max_u32(final(self).max_velocities@),
            final(self).min_velocity == seq_min_u32(final(self).min_velocities@),
            final(self).max_time_to_pass == seq_max_u64(final(self).time_to_pass@),
            final(self).min_time_to_pass == seq_min_u64(final(self).time_to_pass@),
            final(self).close_calls == old(self).close_calls,
    {
        self.max_vehicles_passed = self.max_vehicles_passed + 1;
        self.max_velocities.push(vehicle.max_vilosity);
        self.min_velocities.push(vehicle.min_vilosity);
        self.time_to_pass.push(vehicle.time);

        self.max_time_to_pass = fold_max_u64(&self.time_to_pass);
        self.min_time_to_pass = fold_min_u64(&self.time_to_pass);
        self.max_velocity = fold_max_u32(&self.max_velocities);
        self.min_velocity = fold_min_u32(&self.min_velocities);
    }
}

fn fold_max_u32(v: &Vec<u32>) -> (r: u32)
    ensures
        r == seq_max_u32(v@),
{
    let mut r: u32 = 0;
    let mut i: usize = 0;
    while i < v.len()
        invariant
            i <= v.len(),
            r == seq_max_u32(v@.take(i as int)),
        decreases v.len() - i,
    {
        proof {
            assert(v@.take(i + 1).drop_last() =~= v@.take(i as int));
        }
        if v[i] > r {
            r = v[i];
        }
        i = i + 1;
    }
    proof {
        assert(v@.take(v.len() as int) =~= v@);
    }
    r
}

fn fold_min_u32(v: &Vec<u32>) -> (r: u32)
    ensures
        r == seq_min_u32(v@),
{
    let mut r: u32 = u32::MAX;
    let mut i: usize = 0;
    while i < v.len()
        invariant
            i <= v.len(),
            r == seq_min_u32(v@.take(i as int)),
        decreases v.len() - i,
    {
        proof {
            assert(v@.take(i + 1).drop_last() =~= v@.take(i as int));
        }
        if v[i] < r {
            r = v[i];
        }
        i = i + 1;
    }
    proof {
        assert(v@.take(v.len() as int) =~= v@);
    }
    r
}

fn fold_max_u64(v: &Vec<u64>) -> (r: u64)
    ensures
        r == seq_max_u64(v@),
{
    let mut r: u64 = 0;
    let mut i: usize = 0;
    while i < v.len()
        invariant
            i <= v.len(),
            r == seq_max_u64(v@.take(i as int)),
        decreases v.len() - i,
    {
        proof {
            assert(v@.take(i + 1).drop_last() =~= v@.take(i as int));
        }
        if v[i] > r {
            r = v[i];
        }
        i = i + 1;
    }
    proof {
        assert(v@.take(v.len() as int) =~= v@);
    }
    r
}

fn fold_min_u64(v: &Vec<u64>) -> (r: u64)
    ensures
        r == seq_min_u64(v@),
{
    let mut r: u64 = u64::MAX;
    let mut i: usize = 0;
    while i < v.len()
        invariant
            i <= v.len(),
            r == seq_min_u64(v@.take(i as int)),
        decreases v.len() - i,
    {
        proof {
            assert(v@.take(i + 1).drop_last() =~= v@.take(i as int));
        }
        if v[i] < r {
            r = v[i];
        }
        i = i + 1;
    }
    proof {
        assert(v@.take(v.len() as int) =~= v@);
    }
    r
}

/// One conflict-table entry: an identity and the identities whose paths
/// geometrically overlap it inside the intersection.
#[derive(Debug)]
pub struct BLOCK {
    pub lane: (Cross, Itineraire),
    pub intersections: Vec<(Cross, Itineraire)>,
}

/// The identity that the `i`-th conflict-table entry schedules.
pub open spec fn block_lane(i: int) -> (Cross, Itineraire) {
    if i == 0 {
        (Cross::First, Itineraire::Left)
    } else if i == 1 {
        (Cross::First, Itineraire::Straight)
    } else if i == 2 {
        (Cross::Second, Itineraire::Left)
    } else if i == 3 {
        (Cross::Second, Itineraire::Straight)
    } else if i == 4 {
        (Cross::Third, Itineraire::Left)
    } else if i == 5 {
        (Cross::Third, Itineraire::Straight)
    } else if i == 6 {
        (Cross::Fourth, Itineraire::Left)
    } else {
        (Cross::Fourth, Itineraire::Straight)
    }
}

/// The conflict set of the `i`-th conflict-table entry.
pub open spec fn block_conflicts(i: int) -> Seq<(Cross, Itineraire)> {
    if i == 0 {
        seq![
            (Cross::First, Itineraire::Left),
            (Cross::Fourth, Itineraire::Straight),
            (Cross::Fourth, Itineraire::Left),
            (Cross::Third, Itineraire::Left),
            (Cross::Third, Itineraire::Straight),
            (Cross::Second, Itineraire::Left),
        ]
    } else if i == 1 {
        seq![
            (Cross::First, Itineraire::Straight),
            (Cross::Fourth, Itineraire::Left),
            (Cross::Third, Itineraire::Straight),
            (Cross::Second, Itineraire::Straight),
            (Cross::Second, Itineraire::Left),
        ]
    } else if i == 2 {
        seq![
            (Cross::Second, Itineraire::Left),
            (Cross::First, Itineraire::Straight),
            (Cross::First, Itineraire::Left),
            (Cross::Fourth, Itineraire::Left),
            (Cross::Third, Itineraire::Straight),
            (Cross::Third, Itineraire::Left),
        ]
    } else if i == 3 {
        seq![
            (Cross::First, Itineraire::Straight),
            (Cross::Fourth, Itineraire::Straight),
            (Cross::Fourth, Itineraire::Left),
            (Cross::Third, Itineraire::Left),
            (Cross::Second, Itineraire::Straight),
        ]
    } else if i == 4 {
        seq![
            (Cross::Third, Itineraire::Left),
            (Cross::First, Itineraire::Left),
            (Cross::Fourth, Itineraire::Straight),
            (Cross::Fourth, Itineraire::Left),
            (Cross::Second, Itineraire::Straight),
            (Cross::Second, Itineraire::Left),
        ]
    } else if i == 5 {
        seq![
            (Cross::Third, Itineraire::Straight),
            (Cross::First, Itineraire::Left),
            (Cross::First, Itineraire::Straight),
            (Cross::Fourth, Itineraire::Straight),
            (Cross::Second, Itineraire::Left),
        ]
    } else if i == 6 {
        seq![
            (Cross::Fourth, Itineraire::Left),
            (Cross::First, Itineraire::Left),
            (Cross::First, Itineraire::Straight),
            (Cross::Third, Itineraire::Left),
            (Cross::Second, Itineraire::Straight),
            (Cross::Second, Itineraire::Left),
        ]
    } else {
        seq![
            (Cross::Fourth, Itineraire::Straight),
            (Cross::First, Itineraire::Left),
            (Cross::Third, Itineraire::Straight),
            (Cross::Third, Itineraire::Left),
            (Cross::Second, Itineraire::Straight),
        ]
    }
}

/// Builds the static conflict table: one entry per Left or Straight identity,
/// in lane order, each with the identities whose paths overlap it.
pub fn blocks() -> (r: Vec<BLOCK>)
    ensures
        r.len() == 8,
        forall|i: int| 0 <= i < 8 ==> r[i].lane == block_lane(i),
        forall|i: int| 0 <= i < 8 ==> r[i].intersections@ == block_conflicts(i),
{
    let b0 = BLOCK {
        lane: (Cross::First, Itineraire::Left),
        intersections: vec![
            (Cross::First, Itineraire::Left),
            (Cross::Fourth, Itineraire::Straight),
            (Cross::Fourth, Itineraire::Left),
            (Cross::Third, Itineraire::Left),
            (Cross::Third, Itineraire::Straight),
            (Cross::Second, Itineraire::Left),
        ],
    };
    let b1 = BLOCK {
        lane: (Cross::First, Itineraire::Straight),
        intersections: vec![
            (Cross::First, Itineraire::Straight),
            (Cross::Fourth, Itineraire::Left),
            (Cross::Third, Itineraire::Straight),
            (Cross::Second, Itineraire::Straight),
            (Cross::Second, Itineraire::Left),
        ],
    };
    let b2 = BLOCK {
        lane: (Cross::Second, Itineraire::Left),
        intersections: vec![
            (Cross::Second, Itineraire::Left),
            (Cross::First, Itineraire::Straight),
            (Cross::First, Itineraire::Left),
            (Cross::Fourth, Itineraire::Left),
            (Cross::Third, Itineraire::Straight),
            (Cross::Third, Itineraire::Left),
        ],
    };
    let b3 = BLOCK {
        lane: (Cross::Second, Itineraire::Straight),
        intersections: vec![
            (Cross::First, Itineraire::Straight),
            (Cross::Fourth, Itineraire::Straight),
            (Cross::Fourth, Itineraire::Left),
            (Cross::Third, Itineraire::Left),
            (Cross::Second, Itineraire::Straight),
        ],
    };
    let b4 = BLOCK {
        lane: (Cross::Third, Itineraire::Left),
        intersections: vec![
            (Cross::Third, Itineraire::Left),
            (Cross::First, Itineraire::Left),
            (Cross::Fourth, Itineraire::Straight),
            (Cross::Fourth, Itineraire::Left),
            (Cross::Second, Itineraire::Straight),
            (Cross::Second, Itineraire::Left),
        ],
    };
    let b5 = BLOCK {
        lane: (Cross::Third, Itineraire::Straight),
        intersections: vec![
            (Cross::Third, Itineraire::Straight),
            (Cross::First, Itineraire::Left),
            (Cross::First, Itineraire::Straight),
            (Cross::Fourth, Itineraire::Straight),
            (Cross::Second, Itineraire::Left),
        ],
    };
    let b6 = BLOCK {
        lane: (Cross::Fourth, Itineraire::Left),
        intersections: vec![
            (Cross::Fourth, Itineraire::Left),
            (Cross::First, Itineraire::Left),
            (Cross::First, Itineraire::Straight),
            (Cross::Third, Itineraire::Left),
            (Cross::Second, Itineraire::Straight),
            (Cross::Second, Itineraire::Left),
        ],
    };
    let b7 = BLOCK {
        lane: (Cross::Fourth, Itineraire::Straight),
        intersections: vec![
            (Cross::Fourth, Itineraire::Straight),
            (Cross::First, Itineraire::Left),
            (Cross::Third, Itineraire::Straight),
            (Cross::Third, Itineraire::Left),
            (Cross::Second, Itineraire::Straight),
        ],
    };
    proof {
        assert(b0.intersections@ =~= block_conflicts(0));
        assert(b1.intersections@ =~= block_conflicts(1));
        assert(b2.intersections@ =~= block_conflicts(2));
        assert(b3.intersections@ =~= block_conflicts(3));
        assert(b4.intersections@ =~= block_conflicts(4));
        assert(b5.intersections@ =~= block_conflicts(5));
        assert(b6.intersections@ =~= block_conflicts(6));
        assert(b7.intersections@ =~= block_conflicts(7));
    }
    let r: Vec<BLOCK> = vec![b0, b1, b2, b3, b4, b5, b6, b7];
    r
}

} // verus!
