use vstd::prelude::*;

mod cars;
mod lane;
mod map;
mod routes;
mod settings;

pub use cars::Vehicle;
pub use lane::{Cross, Lane, Stage};
pub use map::{create_roads, get_direction, Path};
pub use routes::Route;
pub use settings::{blocks, Settings, Statistics, BLOCK};

use crate::lane::{itin_of_index, lane_update_rel};
use crate::routes::{count_crossing, stop_distance_from};
use crate::settings::{block_conflicts, block_lane};

verus! {

/// Relies on rand::random_range over `0..n`: the draw is always below `n`;
/// nothing more is promised of a random value.
#[verifier::external_body]
pub(crate) fn random_index(n: usize) -> (r: usize)
    requires
        n >= 1,
    ensures
        r < n,
{
    rand::random_range(0..n)
}

/// The road a vehicle entered the intersection from.
#[derive(Debug, Copy, Clone, PartialEq, Eq, Structural)]
pub enum Direction {
    Up,
    Down,
    Left,
    Right,
}

/// The turn a vehicle takes at the intersection; fixed at spawn.
#[derive(Debug, Copy, Clone, PartialEq, Eq, Structural)]
pub enum Itineraire {
    Left,
    Right,
    Straight,
}

/// The discrete velocity tiers a vehicle may be assigned.
#[derive(Debug, Copy, Clone, PartialEq, Eq, Structural)]
pub enum Vilosity {
    Reduce,
    Slow,
    Medium,
    Fast,
}

/// A point on the map. Coordinates are whole map units; sub-unit movement is
/// carried in per-axis accumulators measured in tenths of a unit.
#[derive(Debug, Copy, Clone, PartialEq, Eq, Structural)]
pub struct Point {
    pub x: i32,
    pub y: i32,
}

impl Point {
    pub fn new(x: i32, y: i32) -> (r: Point)
        ensures
            r.x == x,
            r.y == y,
    {
        Point { x, y }
    }
}

/// The entry road whose lane sits at index `i`, in lane-creation order.
pub open spec fn cross_of_index(i: int) -> Cross {
    if i == 0 {
        Cross::First
    } else if i == 1 {
        Cross::Second
    } else if i == 2 {
        Cross::Third
    } else {
        Cross::Fourth
    }
}

pub open spec fn cross_index(c: Cross) -> int {
    match c {
        Cross::First => 0,
        Cross::Second => 1,
        Cross::Third => 2,
        Cross::Fourth => 3,
    }
}

pub open spec fn itin_index(it: Itineraire) -> int {
    match it {
        Itineraire::Left => 0,
        Itineraire::Straight => 1,
        Itineraire::Right => 2,
    }
}

/// The identity served by route `rj` of lane `li`.
pub open spec fn id_at(li: int, rj: int) -> (Cross, Itineraire) {
    (cross_of_index(li), itin_of_index(rj))
}

/// The four lanes as the scheduler sees them: one per entry road in order,
/// three routes each in turn order, every route tagged with its own identity,
/// position-bounded, and never tagged Crossed.
pub open spec fn wf_lanes(lanes: Seq<Lane>) -> bool {
    &&& lanes.len() == 4
    &&& forall|i: int|
        0 <= i < 4 ==> (#[trigger] lanes[i]).cross == cross_of_index(i)
            && lanes[i].routes@.len() == 3
    &&& forall|i: int, j: int|
        0 <= i < 4 && 0 <= j < 3 ==> (#[trigger] lanes[i].routes@[j]).itineraire == itin_of_index(
            j,
        ) && lanes[i].routes@[j].cross == cross_of_index(i) && lanes[i].routes@[j].bounded()
            && lanes[i].routes@[j].stage != Stage::Crossed
}

/// The route serving `id` within the four lanes.
pub open spec fn route_of(lanes: Seq<Lane>, id: (Cross, Itineraire)) -> Route {
    lanes[cross_index(id.0)].routes@[itin_index(id.1)]
}

pub open spec fn stage_of(lanes: Seq<Lane>, id: (Cross, Itineraire)) -> Stage {
    route_of(lanes, id).stage
}

/// Right turns never conflict and are not scheduled.
pub open spec fn is_scheduled(id: (Cross, Itineraire)) -> bool {
    id.1 != Itineraire::Right
}

/// The row of the conflict table that schedules `id`.
pub open spec fn table_index(id: (Cross, Itineraire)) -> int {
    2 * cross_index(id.0) + (if id.1 == Itineraire::Left {
        0int
    } else {
        1int
    })
}

/// `b` lies in `a`'s conflict set.
pub open spec fn in_conflict(a: (Cross, Itineraire), b: (Cross, Itineraire)) -> bool {
    block_conflicts(table_index(a)).contains(b)
}

/// At most one of any two conflicting identities holds the right of way.
pub open spec fn mutual_exclusion(lanes: Seq<Lane>) -> bool {
    forall|a: (Cross, Itineraire), b: (Cross, Itineraire)|
        #![trigger stage_of(lanes, a), stage_of(lanes, b)]
        is_scheduled(a) && is_scheduled(b) && a != b && in_conflict(a, b) ==> !(stage_of(lanes, a)
            == Stage::Crossing && stage_of(lanes, b) == Stage::Crossing)
}

/// The conflict table is symmetric: `b` overlaps `a` exactly when `a`
/// overlaps `b`.
#[verifier::rlimit(100)]
pub proof fn lemma_conflicts_symmetric(a: (Cross, Itineraire), b: (Cross, Itineraire))
    requires
        is_scheduled(a),
        is_scheduled(b),
    ensures
        in_conflict(a, b) == in_conflict(b, a),
{
}

/// Every conflict-table row lists its own identity, and the row of an
/// identity is found back by `table_index`.
pub proof fn lemma_table_self(bi: int)
    requires
        0 <= bi < 8,
    ensures
        block_conflicts(bi).contains(block_lane(bi)),
        table_index(block_lane(bi)) == bi,
{
    if bi == 3 {
        assert(block_conflicts(3)[4] == block_lane(3));
    } else {
        assert(block_conflicts(bi)[0] == block_lane(bi));
    }
}

/// An identity is recovered from its lane and route indices.
pub proof fn lemma_id_at_inverse(id: (Cross, Itineraire))
    ensures
        id_at(cross_index(id.0), itin_index(id.1)) == id,
{
}

/// While a scheduled identity holds the right of way, no other member of its
/// conflict set does.
pub proof fn lemma_crossing_excludes_conflicts(
    lanes: Seq<Lane>,
    a: (Cross, Itineraire),
    b: (Cross, Itineraire),
)
    requires
        mutual_exclusion(lanes),
        is_scheduled(a),
        is_scheduled(b),
        a != b,
        in_conflict(a, b),
        stage_of(lanes, a) == Stage::Crossing,
    ensures
        stage_of(lanes, b) != Stage::Crossing,
{
}

/// The scan positions (lane index, route index) of the identities of `conf`
/// among the first `n` of the twelve routes, in scan order.
pub open spec fn chunk_upto(conf: Seq<(Cross, Itineraire)>, n: int) -> Seq<(usize, usize)>
    decreases n,
{
    if n <= 0 {
        Seq::empty()
    } else {
        let k = n - 1;
        let rest = chunk_upto(conf, k);
        if conf.contains(id_at(k / 3, k % 3)) {
            rest.push(((k / 3) as usize, (k % 3) as usize))
        } else {
            rest
        }
    }
}

pub open spec fn spec_chunk(conf: Seq<(Cross, Itineraire)>) -> Seq<(usize, usize)> {
    chunk_upto(conf, 12)
}

pub open spec fn pair_route(lanes: Seq<Lane>, p: (usize, usize)) -> Route {
    lanes[p.0 as int].routes@[p.1 as int]
}

pub open spec fn pair_count(lanes: Seq<Lane>, p: (usize, usize)) -> int {
    count_crossing(pair_route(lanes, p).vehicles@)
}

pub open spec fn pair_dist(lanes: Seq<Lane>, p: (usize, usize)) -> int {
    stop_distance_from(
        pair_route(lanes, p).cross,
        pair_route(lanes, p).stop_point,
        pair_route(lanes, p).vehicles@,
        0,
    )
}

pub open spec fn pair_len(lanes: Seq<Lane>, p: (usize, usize)) -> int {
    pair_route(lanes, p).vehicles@.len() as int
}

/// Index into the first `n` values of the last largest one: the later entry
/// wins ties, as the crossing-count and queue-length tie-breaks do.
pub open spec fn last_max_idx(vals: Seq<int>, n: int) -> int
    decreases n,
{
    if n <= 1 {
        0
    } else {
        let r = last_max_idx(vals, n - 1);
        if vals[n - 1] >= vals[r] {
            n - 1
        } else {
            r
        }
    }
}

/// Index into the first `n` entries of the first smallest distance among
/// routes with a non-zero length; -1 when every route is empty: the
/// nearest-vehicle tie-break, where the earlier entry wins ties.
pub open spec fn first_min_idx(lens: Seq<int>, dists: Seq<int>, n: int) -> int
    decreases n,
{
    if n <= 0 {
        -1
    } else {
        let r = first_min_idx(lens, dists, n - 1);
        if lens[n - 1] != 0 && (r < 0 || dists[n - 1] < dists[r]) {
            n - 1
        } else {
            r
        }
    }
}

/// The crossing-vehicle counts of the chunk's routes, in chunk order.
pub open spec fn chunk_counts(lanes: Seq<Lane>, chunk: Seq<(usize, usize)>) -> Seq<int> {
    Seq::new(chunk.len(), |t: int| pair_count(lanes, chunk[t]))
}

/// The stop-point distances of the chunk's routes, in chunk order.
pub open spec fn chunk_dists(lanes: Seq<Lane>, chunk: Seq<(usize, usize)>) -> Seq<int> {
    Seq::new(chunk.len(), |t: int| pair_dist(lanes, chunk[t]))
}

/// The queue lengths of the chunk's routes, in chunk order.
pub open spec fn chunk_lens(lanes: Seq<Lane>, chunk: Seq<(usize, usize)>) -> Seq<int> {
    Seq::new(chunk.len(), |t: int| pair_len(lanes, chunk[t]))
}

/// The scan position of each of the twelve routes in the stage vector.
pub open spec fn pos_index(p: (usize, usize)) -> int {
    3 * p.0 + p.1
}

/// The stages of the twelve routes, in scan order.
pub open spec fn stages_of(lanes: Seq<Lane>) -> Seq<Stage> {
    Seq::new(12, |k: int| lanes[k / 3].routes@[k % 3].stage)
}

/// Some route of the conflict set holds the right of way, under the stage
/// vector `st`.
pub open spec fn any_crossing_st(st: Seq<Stage>, conf: Seq<(Cross, Itineraire)>) -> bool {
    exists|t: int|
        0 <= t < spec_chunk(conf).len() && st[pos_index(spec_chunk(conf)[t])] == Stage::Crossing
}

/// Some route of the conflict set currently holds the right of way.
pub open spec fn sched_any_crossing(lanes: Seq<Lane>, conf: Seq<(Cross, Itineraire)>) -> bool {
    any_crossing_st(stages_of(lanes), conf)
}

/// The scan position of the identity that row `bi` schedules.
pub open spec fn own_pair(bi: int) -> (usize, usize) {
    (cross_index(block_lane(bi).0) as usize, itin_index(block_lane(bi).1) as usize)
}

/// Chunk entries are exactly the scan positions of the identities of `conf`:
/// every entry is in range and names a member of `conf`, and every member's
/// position below `n` appears.
proof fn lemma_chunk_elements(conf: Seq<(Cross, Itineraire)>, n: int)
    requires
        0 <= n <= 12,
    ensures
        forall|m: int|
            0 <= m < chunk_upto(conf, n).len() ==> ((#[trigger] chunk_upto(conf, n)[m]).0 < 4
                && chunk_upto(conf, n)[m].1 < 3 && conf.contains(
                id_at(chunk_upto(conf, n)[m].0 as int, chunk_upto(conf, n)[m].1 as int),
            )),
        forall|li: int, rj: int|
            0 <= li < 4 && 0 <= rj < 3 && 3 * li + rj < n && conf.contains(#[trigger] id_at(li, rj))
                ==> chunk_upto(conf, n).contains((li as usize, rj as usize)),
    decreases n,
{
    if n > 0 {
        lemma_chunk_elements(conf, n - 1);
        let k = n - 1;
        let rest = chunk_upto(conf, k);
        let cur = chunk_upto(conf, n);
        assert forall|li: int, rj: int|
            0 <= li < 4 && 0 <= rj < 3 && 3 * li + rj < n && conf.contains(
                #[trigger] id_at(li, rj),
            ) implies cur.contains((li as usize, rj as usize)) by {
            if 3 * li + rj < n - 1 {
                let t = choose|t: int| 0 <= t < rest.len() && rest[t] == (li as usize, rj as usize);
                assert(cur[t] == (li as usize, rj as usize));
            } else {
                assert(k == 3 * li + rj);
                assert(k / 3 == li && k % 3 == rj) by (nonlinear_arith)
                    requires
                        k == 3 * li + rj,
                        0 <= rj < 3,
                        0 <= li,
                ;
                assert(cur.last() == (li as usize, rj as usize));
                assert(cur[cur.len() - 1] == (li as usize, rj as usize));
            }
        }
    }
}

/// Sets the stage of the route at the given scan position to Crossing and
/// restarts its grant clock; sound only while no member of the row's
/// conflict set is crossing.
fn grant_own(lanes: &mut Vec<Lane>, own_li: usize, own_rj: usize, Ghost(bi): Ghost<int>)
    requires
        0 <= bi < 8,
        wf_lanes(old(lanes)@),
        mutual_exclusion(old(lanes)@),
        own_li == own_pair(bi).0,
        own_rj == own_pair(bi).1,
        forall|b: (Cross, Itineraire)|
            block_conflicts(bi).contains(b) ==> stage_of(old(lanes)@, b) != Stage::Crossing,
    ensures
        wf_lanes(final(lanes)@),
        mutual_exclusion(final(lanes)@),
        forall|i: int|
            0 <= i < 4 ==> (#[trigger] final(lanes)@[i]).cross == old(lanes)@[i].cross
                && final(lanes)@[i].stage == old(lanes)@[i].stage
                && final(lanes)@[i].stop_point == old(lanes)@[i].stop_point
                && final(lanes)@[i].routes@.len() == 3,
        forall|i: int, j: int|
            0 <= i < 4 && 0 <= j < 3 && !(i == own_li && j == own_rj)
                ==> #[trigger] final(lanes)@[i].routes@[j] == old(lanes)@[i].routes@[j],
        final(lanes)@[own_li as int].routes@[own_rj as int] == (Route {
            stage: Stage::Crossing,
            time: 0,
            ..old(lanes)@[own_li as int].routes@[own_rj as int]
        }),
{
    proof {
        lemma_table_self(bi);
    }
    lanes[own_li].routes[own_rj].stage = Stage::Crossing;
    lanes[own_li].routes[own_rj].time = 0;
    proof {
        let ido = block_lane(bi);
        let oldl = old(lanes)@;
        let newl = lanes@;
        lemma_id_at_inverse(ido);
        assert forall|x: (Cross, Itineraire)| x != ido implies stage_of(newl, x) == stage_of(
            oldl,
            x,
        ) by {
            lemma_id_at_inverse(x);
            if cross_index(x.0) == own_li as int && itin_index(x.1) == own_rj as int {
                assert(id_at(cross_index(x.0), itin_index(x.1)) == id_at(
                    cross_index(ido.0),
                    itin_index(ido.1),
                ));
                assert(x == ido);
            }
        }
        assert(stage_of(newl, ido) == Stage::Crossing);
        assert forall|a: (Cross, Itineraire), b: (Cross, Itineraire)|
            #![trigger stage_of(newl, a), stage_of(newl, b)]
            is_scheduled(a) && is_scheduled(b) && a != b && in_conflict(a, b) implies !(stage_of(
            newl,
            a,
        ) == Stage::Crossing && stage_of(newl, b) == Stage::Crossing) by {
            if stage_of(newl, a) == Stage::Crossing && stage_of(newl, b) == Stage::Crossing {
                if a == ido {
                    assert(in_conflict(ido, b));
                    assert(block_conflicts(bi).contains(b));
                    assert(stage_of(oldl, b) != Stage::Crossing);
                    assert(stage_of(newl, b) == stage_of(oldl, b));
                } else if b == ido {
                    lemma_conflicts_symmetric(a, b);
                    assert(block_conflicts(bi).contains(a));
                    assert(stage_of(oldl, a) != Stage::Crossing);
                    assert(stage_of(newl, a) == stage_of(oldl, a));
                } else {
                    assert(stage_of(oldl, a) == Stage::Crossing && stage_of(oldl, b)
                        == Stage::Crossing);
                }
            }
        }
    }
}

/// Whether row `bi` grants its own identity, given that its queue is
/// non-empty and no conflicting route is crossing: the tie-break order is
/// most-vehicles-mid-crossing, then nearest-vehicle-to-stop-point among
/// non-empty routes, then most queued vehicles.
pub open spec fn sched_grant(lanes: Seq<Lane>, bi: int) -> bool {
    let conf = block_conflicts(bi);
    let chunk = spec_chunk(conf);
    let own = own_pair(bi);
    if chunk[last_max_idx(chunk_counts(lanes, chunk), chunk.len() as int)] == own {
        true
    } else {
        let d = first_min_idx(chunk_lens(lanes, chunk), chunk_dists(lanes, chunk), chunk.len() as int);
        if d >= 0 {
            chunk[d] == own
        } else {
            chunk[last_max_idx(chunk_lens(lanes, chunk), chunk.len() as int)] == own
        }
    }
}

/// The stage vector after row `bi` takes its turn of a pass, with the queue
/// data (counts, distances, lengths) read from `data`: queues do not change
/// during a pass, so only the stage vector evolves.
pub open spec fn block_stages(data: Seq<Lane>, st: Seq<Stage>, bi: int) -> Seq<Stage> {
    let conf = block_conflicts(bi);
    let own = own_pair(bi);
    if pair_len(data, own) == 0 {
        st
    } else if any_crossing_st(st, conf) {
        st
    } else if sched_grant(data, bi) {
        st.update(pos_index(own), Stage::Crossing)
    } else {
        st
    }
}

/// The stage vector after the first `b` rows of a pass that started from
/// `st`.
pub open spec fn pass_stages(data: Seq<Lane>, st: Seq<Stage>, b: int) -> Seq<Stage>
    decreases b,
{
    if b <= 0 {
        st
    } else {
        block_stages(data, pass_stages(data, st, b - 1), b - 1)
    }
}

/// Whether row `bi` marks its route's "another route crossed while I
/// waited" flag during a pass starting from `st0`.
pub open spec fn block_flagged(data: Seq<Lane>, st0: Seq<Stage>, bi: int) -> bool {
    let st = pass_stages(data, st0, bi);
    let own = own_pair(bi);
    pair_len(data, own) != 0 && any_crossing_st(st, block_conflicts(bi)) && st[pos_index(own)]
        != Stage::Crossing
}

/// Whether row `bi` grants its identity during a pass starting from `st0`.
pub open spec fn block_granted(data: Seq<Lane>, st0: Seq<Stage>, bi: int) -> bool {
    let st = pass_stages(data, st0, bi);
    let own = own_pair(bi);
    pair_len(data, own) != 0 && !any_crossing_st(st, block_conflicts(bi)) && sched_grant(data, bi)
}

/// Two lane states whose routes agree stage by stage have the same stage
/// vector.
proof fn lemma_stages_unchanged(oldl: Seq<Lane>, newl: Seq<Lane>)
    requires
        oldl.len() == 4,
        newl.len() == 4,
        forall|i: int, j: int|
            0 <= i < 4 && 0 <= j < 3 ==> (#[trigger] newl[i].routes@[j]).stage
                == oldl[i].routes@[j].stage,
    ensures
        stages_of(newl) == stages_of(oldl),
{
    assert forall|k: int| 0 <= k < 12 implies #[trigger] stages_of(newl)[k] == stages_of(
        oldl,
    )[k] by {
        assert(0 <= k / 3 < 4 && 0 <= k % 3 < 3);
    }
    assert(stages_of(newl) =~= stages_of(oldl));
}

/// Granting one route updates the stage vector at exactly its position.
proof fn lemma_stages_update(oldl: Seq<Lane>, newl: Seq<Lane>, li: int, rj: int)
    requires
        oldl.len() == 4,
        newl.len() == 4,
        0 <= li < 4,
        0 <= rj < 3,
        newl[li].routes@[rj].stage == Stage::Crossing,
        forall|i: int, j: int|
            0 <= i < 4 && 0 <= j < 3 && !(i == li && j == rj) ==> (
            #[trigger] newl[i].routes@[j]).stage == oldl[i].routes@[j].stage,
    ensures
        stages_of(newl) == stages_of(oldl).update(3 * li + rj, Stage::Crossing),
{
    assert(0 <= 3 * li + rj < 12) by (nonlinear_arith)
        requires
            0 <= li < 4,
            0 <= rj < 3,
    ;
    assert forall|k: int| 0 <= k < 12 implies #[trigger] stages_of(newl)[k] == stages_of(
        oldl,
    ).update(3 * li + rj, Stage::Crossing)[k] by {
        assert(0 <= k / 3 < 4 && 0 <= k % 3 < 3);
        assert(k == 3 * (k / 3) + k % 3);
        if k == 3 * li + rj {
            assert(k / 3 == li && k % 3 == rj) by (nonlinear_arith)
                requires
                    k == 3 * li + rj,
                    0 <= rj < 3,
                    0 <= li,
            ;
        } else {
            assert(!(k / 3 == li && k % 3 == rj));
        }
    }
    assert(stages_of(newl) =~= stages_of(oldl).update(3 * li + rj, Stage::Crossing));
}

/// Each scheduled identity is scheduled by exactly one row.
pub proof fn lemma_own_pair_injective(t1: int, t2: int)
    requires
        0 <= t1 < 8,
        0 <= t2 < 8,
        own_pair(t1) == own_pair(t2),
    ensures
        t1 == t2,
{
    lemma_table_self(t1);
    lemma_table_self(t2);
    lemma_id_at_inverse(block_lane(t1));
    lemma_id_at_inverse(block_lane(t2));
    assert(block_lane(t1) == block_lane(t2));
}

/// How one pass of row `bi` leaves the route it schedules, given the
/// pre-pass state `oldl` of all lanes: skipped when its queue is empty,
/// marked when a conflicting route holds the right of way, granted when the
/// tie-breaks select it, untouched otherwise.
pub open spec fn block_effect(oldl: Seq<Lane>, bi: int, oldr: Route, newr: Route) -> bool {
    if oldr.vehicles@.len() == 0 {
        newr == oldr
    } else if sched_any_crossing(oldl, block_conflicts(bi)) {
        newr == (Route {
            other_route_crossed: oldr.other_route_crossed || oldr.stage != Stage::Crossing,
            ..oldr
        })
    } else if sched_grant(oldl, bi) {
        newr == (Route { stage: Stage::Crossing, time: 0, ..oldr })
    } else {
        newr == oldr
    }
}

fn cross_index_exec(c: Cross) -> (i: usize)
    ensures
        i == cross_index(c),
{
    match c {
        Cross::First => 0,
        Cross::Second => 1,
        Cross::Third => 2,
        Cross::Fourth => 3,
    }
}

fn itin_index_exec(it: Itineraire) -> (j: usize)
    ensures
        j == itin_index(it),
{
    match it {
        Itineraire::Left => 0,
        Itineraire::Straight => 1,
        Itineraire::Right => 2,
    }
}

fn cross_of_index_exec(i: usize) -> (c: Cross)
    requires
        i < 4,
    ensures
        c == cross_of_index(i as int),
{
    match i {
        0 => Cross::First,
        1 => Cross::Second,
        2 => Cross::Third,
        _ => Cross::Fourth,
    }
}

fn itin_of_index_exec(j: usize) -> (it: Itineraire)
    requires
        j < 3,
    ensures
        it == itin_of_index(j as int),
{
    match j {
        0 => Itineraire::Left,
        1 => Itineraire::Straight,
        _ => Itineraire::Right,
    }
}

fn contains_identity(v: &Vec<(Cross, Itineraire)>, c: Cross, it: Itineraire) -> (b: bool)
    ensures
        b == v@.contains((c, it)),
{
    let mut i: usize = 0;
    while i < v.len()
        invariant
            i <= v@.len(),
            forall|k: int| 0 <= k < i ==> v@[k] != (c, it),
        decreases v@.len() - i,
    {
        let e = v[i];
        if e.0 == c && e.1 == it {
            proof {
                assert(v@[i as int] == (c, it));
            }
            return true;
        }
        i = i + 1;
    }
    false
}

/// One pass of conflict-table row `bi`: gathers the routes of its conflict
/// set, skips when its own queue is empty, yields (marking the near-miss
/// flag) when any of them holds the right of way, and otherwise grants its
/// own identity when the tie-breaks select it.
#[verifier::rlimit(100)]
fn process_block(lanes: &mut Vec<Lane>, block: &BLOCK, Ghost(bi): Ghost<int>)
    requires
        0 <= bi < 8,
        block.lane == block_lane(bi),
        block.intersections@ == block_conflicts(bi),
        wf_lanes(old(lanes)@),
        mutual_exclusion(old(lanes)@),
    ensures
        wf_lanes(final(lanes)@),
        mutual_exclusion(final(lanes)@),
        forall|i: int|
            0 <= i < 4 ==> (#[trigger] final(lanes)@[i]).cross == old(lanes)@[i].cross
                && final(lanes)@[i].stage == old(lanes)@[i].stage
                && final(lanes)@[i].stop_point == old(lanes)@[i].stop_point,
        forall|i: int, j: int|
            0 <= i < 4 && 0 <= j < 3 && !(i == own_pair(bi).0 && j == own_pair(bi).1)
                ==> #[trigger] final(lanes)@[i].routes@[j] == old(lanes)@[i].routes@[j],
        block_effect(
            old(lanes)@,
            bi,
            old(lanes)@[own_pair(bi).0 as int].routes@[own_pair(bi).1 as int],
            final(lanes)@[own_pair(bi).0 as int].routes@[own_pair(bi).1 as int],
        ),
        stages_of(final(lanes)@) == block_stages(old(lanes)@, stages_of(old(lanes)@), bi),
{
    let own_li = cross_index_exec(block.lane.0);
    let own_rj = itin_index_exec(block.lane.1);
    proof {
        lemma_table_self(bi);
        lemma_chunk_elements(block.intersections@, 12);
    }

    let mut chunk: Vec<(usize, usize)> = Vec::new();
    let mut k: usize = 0;
    while k < 12
        invariant
            k <= 12,
            chunk@ == chunk_upto(block.intersections@, k as int),
        decreases 12 - k,
    {
        let li = k / 3;
        let rj = k % 3;
        let c = cross_of_index_exec(li);
        let it = itin_of_index_exec(rj);
        if contains_identity(&block.intersections, c, it) {
            chunk.push((li, rj));
        }
        k = k + 1;
    }
    let ghost conf = block.intersections@;
    let ghost chunkv = spec_chunk(conf);
    proof {
        assert(chunk@ == chunkv);
        assert(conf.contains(block_lane(bi)));
        lemma_id_at_inverse(block_lane(bi));
        assert(chunkv.contains((own_li, own_rj)));
        assert(chunkv.len() >= 1);
    }

    if lanes[own_li].routes[own_rj].vehicles.len() == 0 {
        proof {
            assert(pair_len(old(lanes)@, own_pair(bi)) == 0);
        }
        return ;
    }

    let mut any_cross = false;
    let mut m: usize = 0;
    while m < chunk.len()
        invariant
            m <= chunk@.len(),
            chunk@ == chunkv,
            chunkv == spec_chunk(conf),
            wf_lanes(lanes@),
            lanes@ == old(lanes)@,
            forall|t: int|
                0 <= t < chunkv.len() ==> (#[trigger] chunkv[t]).0 < 4 && chunkv[t].1 < 3,
            any_cross == exists|t: int|
                0 <= t < m && pair_route(lanes@, chunkv[t]).stage == Stage::Crossing,
        decreases chunk@.len() - m,
    {
        let p = chunk[m];
        if lanes[p.0].routes[p.1].stage == Stage::Crossing {
            any_cross = true;
        }
        m = m + 1;
    }
    proof {
        assert(any_cross == sched_any_crossing(lanes@, conf));
    }

    if any_cross {
        if lanes[own_li].routes[own_rj].stage != Stage::Crossing {
            lanes[own_li].routes[own_rj].other_route_crossed = true;
        }
        proof {
            lemma_stages_unchanged_mutex(old(lanes)@, lanes@);
            lemma_stages_unchanged(old(lanes)@, lanes@);
        }
        return ;
    }

    proof {
        assert forall|b: (Cross, Itineraire)| conf.contains(b) implies stage_of(
            old(lanes)@,
            b,
        ) != Stage::Crossing by {
            lemma_id_at_inverse(b);
            assert(chunkv.contains((cross_index(b.0) as usize, itin_index(b.1) as usize)));
            let t = choose|t: int|
                0 <= t < chunkv.len() && chunkv[t] == (
                    cross_index(b.0) as usize,
                    itin_index(b.1) as usize,
                );
            assert(pair_route(lanes@, chunkv[t]).stage != Stage::Crossing);
        }
    }

    let mut best: usize = 0;
    let p0 = chunk[0];
    let mut best_cnt: usize = lanes[p0.0].routes[p0.1].crossing_count();
    let mut m: usize = 1;
    while m < chunk.len()
        invariant
            1 <= m <= chunk@.len(),
            chunk@ == chunkv,
            wf_lanes(lanes@),
            lanes@ == old(lanes)@,
            forall|t: int|
                0 <= t < chunkv.len() ==> (#[trigger] chunkv[t]).0 < 4 && chunkv[t].1 < 3,
            best < m,
            best as int == last_max_idx(chunk_counts(lanes@, chunkv), m as int),
            best_cnt == pair_count(lanes@, chunkv[best as int]),
        decreases chunk@.len() - m,
    {
        let p = chunk[m];
        let cnt = lanes[p.0].routes[p.1].crossing_count();
        if cnt >= best_cnt {
            best = m;
            best_cnt = cnt;
        }
        m = m + 1;
    }

    let pb = chunk[best];
    if pb.0 == own_li && pb.1 == own_rj {
        proof {
            assert(chunkv[best as int] == own_pair(bi));
            assert(sched_grant(lanes@, bi));
        }
        grant_own(lanes, own_li, own_rj, Ghost(bi));
        proof {
            lemma_stages_update(old(lanes)@, lanes@, own_li as int, own_rj as int);
        }
        return ;
    }
    proof {
        assert(chunkv[last_max_idx(chunk_counts(lanes@, chunkv), chunkv.len() as int)]
            != own_pair(bi));
    }

    let mut found = false;
    let mut bdix: usize = 0;
    let mut bd: usize = 0;
    let mut m: usize = 0;
    while m < chunk.len()
        invariant
            m <= chunk@.len(),
            chunk@ == chunkv,
            wf_lanes(lanes@),
            lanes@ == old(lanes)@,
            forall|t: int|
                0 <= t < chunkv.len() ==> (#[trigger] chunkv[t]).0 < 4 && chunkv[t].1 < 3,
            found ==> bdix < m && bdix as int == first_min_idx(
                chunk_lens(lanes@, chunkv),
                chunk_dists(lanes@, chunkv),
                m as int,
            ) && bd == pair_dist(lanes@, chunkv[bdix as int]),
            !found ==> first_min_idx(
                chunk_lens(lanes@, chunkv),
                chunk_dists(lanes@, chunkv),
                m as int,
            ) == -1,
        decreases chunk@.len() - m,
    {
        let p = chunk[m];
        if lanes[p.0].routes[p.1].vehicles.len() != 0 {
            let dist = lanes[p.0].routes[p.1].distance_to_stop_point();
            if !found || dist < bd {
                found = true;
                bdix = m;
                bd = dist;
            }
        }
        m = m + 1;
    }

    if found {
        let pd = chunk[bdix];
        if pd.0 == own_li && pd.1 == own_rj {
            proof {
                assert(chunkv[bdix as int] == own_pair(bi));
                assert(sched_grant(lanes@, bi));
            }
            grant_own(lanes, own_li, own_rj, Ghost(bi));
            proof {
                lemma_stages_update(old(lanes)@, lanes@, own_li as int, own_rj as int);
            }
        } else {
            proof {
                assert(!sched_grant(lanes@, bi));
                lemma_stages_unchanged_mutex(old(lanes)@, lanes@);
            }
        }
    } else {
        let mut bl: usize = 0;
        let pl0 = chunk[0];
        let mut bl_len: usize = lanes[pl0.0].routes[pl0.1].vehicles.len();
        let mut m: usize = 1;
        while m < chunk.len()
            invariant
                1 <= m <= chunk@.len(),
                chunk@ == chunkv,
                wf_lanes(lanes@),
                lanes@ == old(lanes)@,
                forall|t: int|
                    0 <= t < chunkv.len() ==> (#[trigger] chunkv[t]).0 < 4 && chunkv[t].1 < 3,
                bl < m,
                bl as int == last_max_idx(chunk_lens(lanes@, chunkv), m as int),
                bl_len == pair_len(lanes@, chunkv[bl as int]),
            decreases chunk@.len() - m,
        {
            let p = chunk[m];
            let l = lanes[p.0].routes[p.1].vehicles.len();
            if l >= bl_len {
                bl = m;
                bl_len = l;
            }
            m = m + 1;
        }
        let pl = chunk[bl];
        if pl.0 == own_li && pl.1 == own_rj {
            proof {
                assert(chunkv[bl as int] == own_pair(bi));
                assert(sched_grant(lanes@, bi));
            }
            grant_own(lanes, own_li, own_rj, Ghost(bi));
            proof {
                lemma_stages_update(old(lanes)@, lanes@, own_li as int, own_rj as int);
            }
        } else {
            proof {
                assert(!sched_grant(lanes@, bi));
                lemma_stages_unchanged_mutex(old(lanes)@, lanes@);
            }
        }
    }
}

/// Mutual exclusion carries over to a lane state with identical stages.
proof fn lemma_stages_unchanged_mutex(oldl: Seq<Lane>, newl: Seq<Lane>)
    requires
        mutual_exclusion(oldl),
        wf_lanes(oldl),
        wf_lanes(newl),
        forall|x: (Cross, Itineraire)| #[trigger] stage_of(newl, x) == stage_of(oldl, x),
    ensures
        mutual_exclusion(newl),
{
    assert forall|a: (Cross, Itineraire), b: (Cross, Itineraire)|
        #![trigger stage_of(newl, a), stage_of(newl, b)]
        is_scheduled(a) && is_scheduled(b) && a != b && in_conflict(a, b) implies !(stage_of(
        newl,
        a,
    ) == Stage::Crossing && stage_of(newl, b) == Stage::Crossing) by {
        assert(stage_of(oldl, a) == stage_of(newl, a));
        assert(stage_of(oldl, b) == stage_of(newl, b));
    }
}

/// Everything one scheduler pass does: queues untouched, no grant revoked,
/// Right-turn routes untouched, the stage vector exactly the fold of the
/// eight rows' decisions, and flags and grant clocks exactly per row.
pub open spec fn scheduler_pass_rel(oldl: Seq<Lane>, newl: Seq<Lane>) -> bool {
    &&& oldl.len() == 4
    &&& newl.len() == 4
    &&& (forall|i: int|
        0 <= i < 4 ==> (#[trigger] newl[i]).cross == oldl[i].cross && newl[i].stage
            == oldl[i].stage && newl[i].stop_point == oldl[i].stop_point)
    &&& (forall|i: int, j: int|
        0 <= i < 4 && 0 <= j < 3 ==> #[trigger] newl[i].routes@[j] == (Route {
            stage: newl[i].routes@[j].stage,
            time: newl[i].routes@[j].time,
            other_route_crossed: newl[i].routes@[j].other_route_crossed,
            ..oldl[i].routes@[j]
        }))
    &&& (forall|i: int, j: int|
        0 <= i < 4 && 0 <= j < 3 ==> ((#[trigger] newl[i].routes@[j]).time
            == oldl[i].routes@[j].time || newl[i].routes@[j].time == 0))
    &&& (forall|i: int, j: int|
        0 <= i < 4 && 0 <= j < 3 && oldl[i].routes@[j].stage == Stage::Crossing ==> (
        #[trigger] newl[i].routes@[j]).stage == Stage::Crossing)
    &&& (forall|i: int| 0 <= i < 4 ==> (#[trigger] newl[i]).routes@[2] == oldl[i].routes@[2])
    &&& stages_of(newl) == pass_stages(oldl, stages_of(oldl), 8)
    &&& (forall|t: int|
        #![trigger own_pair(t)]
        0 <= t < 8 ==> ({
            let p = own_pair(t);
            let nr = newl[p.0 as int].routes@[p.1 as int];
            let er = oldl[p.0 as int].routes@[p.1 as int];
            &&& nr.other_route_crossed == (er.other_route_crossed || block_flagged(
                oldl,
                stages_of(oldl),
                t,
            ))
            &&& nr.time == (if block_granted(oldl, stages_of(oldl), t) {
                0u64
            } else {
                er.time
            })
        }))
}

/// One full scheduler pass: every conflict-table row is processed in table
/// order, each deciding whether its identity may enter Crossing (see
/// `scheduler_pass_rel` for the exact effect). Mutual exclusion over the
/// conflict table is preserved.
#[verifier::rlimit(100)]
pub fn smart_intersection(lanes: &mut Vec<Lane>)
    requires
        wf_lanes(old(lanes)@),
        mutual_exclusion(old(lanes)@),
    ensures
        wf_lanes(final(lanes)@),
        mutual_exclusion(final(lanes)@),
        scheduler_pass_rel(old(lanes)@, final(lanes)@),
{
    let table = blocks();
    let mut b: usize = 0;
    while b < 8
        invariant
            b <= 8,
            table@.len() == 8,
            forall|t: int| 0 <= t < 8 ==> (#[trigger] table@[t]).lane == block_lane(t),
            forall|t: int| 0 <= t < 8 ==> (#[trigger] table@[t]).intersections@ == block_conflicts(
                t,
            ),
            wf_lanes(lanes@),
            mutual_exclusion(lanes@),
            forall|i: int|
                0 <= i < 4 ==> (#[trigger] lanes@[i]).cross == old(lanes)@[i].cross
                    && lanes@[i].stage == old(lanes)@[i].stage && lanes@[i].stop_point == old(
                    lanes,
                )@[i].stop_point,
            forall|i: int, j: int|
                0 <= i < 4 && 0 <= j < 3 ==> #[trigger] lanes@[i].routes@[j] == (Route {
                    stage: lanes@[i].routes@[j].stage,
                    time: lanes@[i].routes@[j].time,
                    other_route_crossed: lanes@[i].routes@[j].other_route_crossed,
                    ..old(lanes)@[i].routes@[j]
                }),
            forall|i: int, j: int|
                0 <= i < 4 && 0 <= j < 3 ==> ((#[trigger] lanes@[i].routes@[j]).time == old(
                    lanes,
                )@[i].routes@[j].time || lanes@[i].routes@[j].time == 0),
            forall|i: int, j: int|
                0 <= i < 4 && 0 <= j < 3 && old(lanes)@[i].routes@[j].stage == Stage::Crossing
                    ==> (#[trigger] lanes@[i].routes@[j]).stage == Stage::Crossing,
            forall|i: int| 0 <= i < 4 ==> (#[trigger] lanes@[i]).routes@[2] == old(
                lanes,
            )@[i].routes@[2],
            stages_of(lanes@) == pass_stages(old(lanes)@, stages_of(old(lanes)@), b as int),
            forall|t: int|
                #![trigger own_pair(t)]
                0 <= t < b ==> ({
                    let p = own_pair(t);
                    let nr = lanes@[p.0 as int].routes@[p.1 as int];
                    let er = old(lanes)@[p.0 as int].routes@[p.1 as int];
                    &&& nr.other_route_crossed == (er.other_route_crossed || block_flagged(
                        old(lanes)@,
                        stages_of(old(lanes)@),
                        t,
                    ))
                    &&& nr.time == (if block_granted(old(lanes)@, stages_of(old(lanes)@), t) {
                        0u64
                    } else {
                        er.time
                    })
                }),
            forall|t: int|
                #![trigger own_pair(t)]
                b <= t < 8 ==> lanes@[own_pair(t).0 as int].routes@[own_pair(t).1 as int] == old(
                    lanes,
                )@[own_pair(t).0 as int].routes@[own_pair(t).1 as int],
        decreases 8 - b,
    {
        let ghost pre = lanes@;
        process_block(lanes, &table[b], Ghost(b as int));
        proof {
            let entry = old(lanes)@;
            let st0 = stages_of(entry);
            let bi = b as int;
            let post = lanes@;
            let own = own_pair(bi);
            let conf = block_conflicts(bi);
            let chunk = spec_chunk(conf);
            lemma_table_self(bi);
            lemma_chunk_elements(conf, 12);
            assert(own_pair(bi).1 < 2);

            // The queue data of every route of the conflict set is what it
            // was at the start of the pass: only stages, grant clocks and
            // flags have moved.
            assert forall|t: int| 0 <= t < chunk.len() implies pair_count(pre, #[trigger] chunk[t])
                == pair_count(entry, chunk[t]) && pair_dist(pre, chunk[t]) == pair_dist(
                entry,
                chunk[t],
            ) && pair_len(pre, chunk[t]) == pair_len(entry, chunk[t]) by {
                let p = chunk[t];
                assert(pre[p.0 as int].routes@[p.1 as int] == (Route {
                    stage: pre[p.0 as int].routes@[p.1 as int].stage,
                    time: pre[p.0 as int].routes@[p.1 as int].time,
                    other_route_crossed: pre[p.0 as int].routes@[p.1 as int].other_route_crossed,
                    ..entry[p.0 as int].routes@[p.1 as int]
                }));
            }
            assert(chunk_counts(pre, chunk) =~= chunk_counts(entry, chunk));
            assert(chunk_dists(pre, chunk) =~= chunk_dists(entry, chunk));
            assert(chunk_lens(pre, chunk) =~= chunk_lens(entry, chunk));
            assert(sched_grant(pre, bi) == sched_grant(entry, bi));
            assert(pre[own.0 as int].routes@[own.1 as int] == entry[own.0 as int].routes@[own.1 as int]);
            assert(pair_len(pre, own) == pair_len(entry, own));

            assert(stages_of(post) == block_stages(pre, stages_of(pre), bi));
            assert(block_stages(pre, stages_of(pre), bi) == block_stages(
                entry,
                stages_of(pre),
                bi,
            ));
            assert(stages_of(post) == pass_stages(entry, st0, bi + 1));

            // Effect on the route this row schedules, in pass-model terms.
            let er = entry[own.0 as int].routes@[own.1 as int];
            let prer = pre[own.0 as int].routes@[own.1 as int];
            let postr = post[own.0 as int].routes@[own.1 as int];
            assert(prer == er);
            let pos = pos_index(own);
            assert(pos == 3 * own.0 + own.1);
            assert(0 <= pos < 12 && pos / 3 == own.0 as int && pos % 3 == own.1 as int)
                by (nonlinear_arith)
                requires
                    pos == 3 * (own.0 as int) + own.1 as int,
                    own.0 < 4,
                    own.1 < 3,
            ;
            assert(stages_of(pre)[pos] == prer.stage);
            assert(sched_any_crossing(pre, conf) == any_crossing_st(
                pass_stages(entry, st0, bi),
                conf,
            ));
            assert(postr.other_route_crossed == (er.other_route_crossed || block_flagged(
                entry,
                st0,
                bi,
            )));
            assert(postr.time == (if block_granted(entry, st0, bi) {
                0u64
            } else {
                er.time
            }));

            // No other row schedules this route, so the rest of the
            // bookkeeping is untouched.
            assert forall|t: int| 0 <= t < 8 && t != bi implies own_pair(t) != own by {
                if own_pair(t) == own {
                    lemma_own_pair_injective(t, bi);
                }
            }
        }
        b = b + 1;
    }
}

/// The lane that vehicles entering from `direction` drive into.
pub open spec fn lane_index_of_direction(d: Direction) -> int {
    match d {
        Direction::Up => 3,
        Direction::Down => 0,
        Direction::Left => 2,
        Direction::Right => 1,
    }
}

/// All four lanes are well-formed with respect to the geometry.
pub open spec fn lanes_ok(lanes: Seq<Lane>, s: Settings) -> bool {
    &&& wf_lanes(lanes)
    &&& forall|i: int| 0 <= i < 4 ==> (#[trigger] lanes[i]).wf(s)
}

/// Vehicles queued over all routes of all four lanes.
pub open spec fn total_vehicles(lanes: Seq<Lane>) -> int {
    lane_vehicles(lanes[0]) + lane_vehicles(lanes[1]) + lane_vehicles(lanes[2]) + lane_vehicles(
        lanes[3],
    )
}

pub open spec fn lane_vehicles(l: Lane) -> int {
    l.routes@[0].vehicles@.len() as int + l.routes@[1].vehicles@.len() as int
        + l.routes@[2].vehicles@.len() as int
}

/// Deriving a route's stage never invents a grant: it yields Crossing only
/// if the route already was Crossing.
pub proof fn lemma_set_stage_demotes(r: Route)
    ensures
        crate::routes::spec_route_set_stage(r).stage == Stage::Crossing ==> r.stage
            == Stage::Crossing,
        crate::routes::spec_route_set_stage(r).stage == r.stage || crate::routes::spec_route_set_stage(
            r,
        ).stage == Stage::Waiting,
{
}

/// Mutual exclusion carries over to a lane state in which no identity gained
/// Crossing.
pub proof fn lemma_demotion_mutex(oldl: Seq<Lane>, newl: Seq<Lane>)
    requires
        mutual_exclusion(oldl),
        forall|x: (Cross, Itineraire)|
            #[trigger] stage_of(newl, x) == Stage::Crossing ==> stage_of(oldl, x)
                == Stage::Crossing,
    ensures
        mutual_exclusion(newl),
{
    assert forall|a: (Cross, Itineraire), b: (Cross, Itineraire)|
        #![trigger stage_of(newl, a), stage_of(newl, b)]
        is_scheduled(a) && is_scheduled(b) && a != b && in_conflict(a, b) implies !(stage_of(
        newl,
        a,
    ) == Stage::Crossing && stage_of(newl, b) == Stage::Crossing) by {
        if stage_of(newl, a) == Stage::Crossing && stage_of(newl, b) == Stage::Crossing {
            assert(stage_of(oldl, a) == Stage::Crossing);
            assert(stage_of(oldl, b) == Stage::Crossing);
        }
    }
}

/// Spawns a vehicle entering from `direction`: one of the three turn routes
/// of that road is chosen at random and asked to accept the vehicle, which
/// it does unless its queue is capped or its tail is too close. Stages are
/// untouched, so mutual exclusion is preserved.
pub fn spawn(lanes: &mut Vec<Lane>, direction: Direction, s: &Settings)
    requires
        s.geometry_ok(),
        lanes_ok(old(lanes)@, *s),
        mutual_exclusion(old(lanes)@),
    ensures
        lanes_ok(final(lanes)@, *s),
        mutual_exclusion(final(lanes)@),
        forall|i: int|
            0 <= i < 4 && i != lane_index_of_direction(direction)
                ==> #[trigger] final(lanes)@[i] == old(lanes)@[i],
        ({
            let li = lane_index_of_direction(direction);
            let oldlane = old(lanes)@[li];
            let newlane = final(lanes)@[li];
            &&& newlane.cross == oldlane.cross
            &&& newlane.stage == oldlane.stage
            &&& newlane.stop_point == oldlane.stop_point
            &&& exists|j: int|
                0 <= j < 3 && (forall|k: int|
                    0 <= k < 3 && k != j ==> newlane.routes@[k] == oldlane.routes@[k]) && (
                #[trigger] newlane.routes@[j]).stage == oldlane.routes@[j].stage && (if crate::routes::can_spawn(
                    oldlane.routes@[j],
                    direction,
                    *s,
                ) {
                    newlane.routes@[j].vehicles@.len() == oldlane.routes@[j].vehicles@.len() + 1
                } else {
                    newlane.routes@[j] == oldlane.routes@[j]
                })
        }),
{
    let li: usize = match direction {
        Direction::Up => 3,
        Direction::Down => 0,
        Direction::Left => 2,
        Direction::Right => 1,
    };
    let j = random_index(3);
    let ghost oldl = lanes@;
    lanes[li].routes[j].add_vehicle(direction, s);
    proof {
        let newl = lanes@;
        let lii = li as int;
        let jj = j as int;
        assert((#[trigger] newl[lii].routes@[jj]).stage == oldl[lii].routes@[jj].stage);
        assert(forall|k: int|
            0 <= k < 3 && k != jj ==> newl[lii].routes@[k] == oldl[lii].routes@[k]);
        assert forall|x: (Cross, Itineraire)| #[trigger] stage_of(newl, x) == Stage::Crossing
            implies stage_of(oldl, x) == Stage::Crossing by {
            assert(route_of(newl, x).stage == route_of(oldl, x).stage);
        }
        lemma_demotion_mutex(oldl, newl);
    }
}

/// One simulation tick: every route of every lane advances its queue and
/// applies the local velocity policy (one `lane_update_rel` step per lane,
/// threading the statistics through the intermediate states), then the
/// scheduler runs one global pass over the conflict table
/// (`scheduler_pass_rel`). Well-formedness and mutual exclusion over the
/// conflict table are preserved.
#[verifier::rlimit(100)]
pub fn tick(lanes: &mut Vec<Lane>, s: &Settings, statistic: &mut Statistics)
    requires
        s.wf(),
        lanes_ok(old(lanes)@, *s),
        mutual_exclusion(old(lanes)@),
        old(statistic).close_calls + 12 < usize::MAX,
        old(statistic).max_vehicles_passed + total_vehicles(old(lanes)@) + 12 < usize::MAX,
    ensures
        lanes_ok(final(lanes)@, *s),
        mutual_exclusion(final(lanes)@),
        final(statistic).close_calls <= old(statistic).close_calls + 12,
        final(statistic).max_vehicles_passed <= old(statistic).max_vehicles_passed
            + total_vehicles(old(lanes)@),
        exists|mid: Seq<Lane>, sa: Statistics, sb: Statistics, sc: Statistics|
            #![trigger lane_update_rel(old(lanes)@[1], mid[1], sa, sb, *s), lane_update_rel(old(lanes)@[3], mid[3], sc, *final(statistic), *s)]
            {
                &&& mid.len() == 4
                &&& lane_update_rel(old(lanes)@[0], mid[0], *old(statistic), sa, *s)
                &&& lane_update_rel(old(lanes)@[1], mid[1], sa, sb, *s)
                &&& lane_update_rel(old(lanes)@[2], mid[2], sb, sc, *s)
                &&& lane_update_rel(old(lanes)@[3], mid[3], sc, *final(statistic), *s)
                &&& scheduler_pass_rel(mid, final(lanes)@)
            },
{
    let ghost entry = lanes@;
    lanes[0].update(s, statistic);
    let ghost sa = *statistic;
    lanes[1].update(s, statistic);
    let ghost sb = *statistic;
    lanes[2].update(s, statistic);
    let ghost sc = *statistic;
    lanes[3].update(s, statistic);
    proof {
        let mid = lanes@;
        assert forall|x: (Cross, Itineraire)| #[trigger] stage_of(mid, x) == Stage::Crossing
            implies stage_of(entry, x) == Stage::Crossing by {
            let i = cross_index(x.0);
            let j = itin_index(x.1);
            assert(mid[i].routes@[j].stage == crate::routes::spec_route_set_stage(
                entry[i].routes@[j],
            ).stage);
            lemma_set_stage_demotes(entry[i].routes@[j]);
        }
        lemma_demotion_mutex(entry, mid);
    }
    let ghost mid2 = lanes@;
    proof {
        assert(lane_update_rel(entry[0], mid2[0], *old(statistic), sa, *s));
        assert(lane_update_rel(entry[1], mid2[1], sa, sb, *s));
        assert(lane_update_rel(entry[2], mid2[2], sb, sc, *s));
        assert(lane_update_rel(entry[3], mid2[3], sc, *statistic, *s));
    }
    smart_intersection(lanes);
    proof {
        assert(scheduler_pass_rel(mid2, lanes@));
        assert forall|i: int| 0 <= i < 4 implies (#[trigger] lanes@[i]).wf(*s) by {
            assert forall|j: int| 0 <= j < 3 implies (#[trigger] lanes@[i].routes@[j]).wf(*s) by {
                let nr = lanes@[i].routes@[j];
                let mr = mid2[i].routes@[j];
                assert(mid2[i].wf(*s));
                assert(mr.wf(*s));
                assert(nr == (Route {
                    stage: nr.stage,
                    time: nr.time,
                    other_route_crossed: nr.other_route_crossed,
                    ..mr
                }));
                assert(nr.time == mr.time || nr.time == 0);
            }
        }
    }
}

} // verus!
