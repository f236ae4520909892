use vstd::prelude::*;

use crate::settings::Settings;
use crate::Point;

verus! {

/// One road marking: a straight segment between two points.
#[derive(Debug, Clone, Copy)]
pub struct Path {
    pub start: Point,
    pub end: Point,
}

impl Path {
    pub fn new(start: (i32, i32), end: (i32, i32)) -> (r: Path)
        ensures
            r.start == (Point { x: start.0, y: start.1 }),
            r.end == (Point { x: end.0, y: end.1 }),
    {
        Path { start: Point::new(start.0, start.1), end: Point::new(end.0, end.1) }
    }
}

/// The `j`-th marking of road group `g` (top, left, right, bottom edge of the
/// intersection approaches): a segment along every second key point.
pub open spec fn road_path(g: int, j: int, s: Settings) -> Path {
    let vk = s.vertical_key_points@;
    let hk = s.horizontal_key_points@;
    let k = 2 + 2 * j;
    if g == 0 {
        Path { start: Point { x: vk[k], y: hk[0] }, end: Point { x: vk[k], y: hk[2] } }
    } else if g == 1 {
        Path { start: Point { x: vk[0], y: hk[k] }, end: Point { x: vk[2], y: hk[k] } }
    } else if g == 2 {
        Path { start: Point { x: vk[16], y: hk[k] }, end: Point { x: vk[14], y: hk[k] } }
    } else {
        Path { start: Point { x: vk[k], y: hk[16] }, end: Point { x: vk[k], y: hk[14] } }
    }
}

/// The centerline coordinates at which each road group carries its lane
/// arrows.
pub open spec fn road_marks(s: Settings) -> Seq<i32> {
    let vk = s.vertical_key_points@;
    let hk = s.horizontal_key_points@;
    seq![hk[1], vk[1], vk[15], hk[15]]
}

/// Computes the road markings of the four intersection approaches and the
/// four arrow centerlines; the drawing layer consumes them unchanged.
pub fn create_roads(s: &Settings) -> (r: (Vec<Vec<Path>>, Vec<i32>))
    requires
        s.wf(),
    ensures
        r.0@.len() == 4,
        forall|g: int| 0 <= g < 4 ==> (#[trigger] r.0@[g])@.len() == 8,
        forall|g: int, j: int|
            0 <= g < 4 && 0 <= j < 8 ==> (#[trigger] r.0@[g]@[j]) == road_path(g, j, *s),
        r.1@ == road_marks(*s),
{
    let vk = &s.vertical_key_points;
    let hk = &s.horizontal_key_points;
    let xy: Vec<i32> = vec![hk[1], vk[1], vk[15], hk[15]];
    proof {
        assert(xy@ =~= road_marks(*s));
    }

    let mut routes: Vec<Vec<Path>> = Vec::new();

    let mut first_route: Vec<Path> = Vec::new();
    let mut i: usize = 2;
    while i < 17
        invariant
            s.wf(),
            i % 2 == 0,
            2 <= i <= 18,
            first_route@.len() == (i - 2) / 2,
            forall|j: int|
                0 <= j < first_route@.len() ==> (#[trigger] first_route@[j]) == road_path(
                    0,
                    j,
                    *s,
                ),
        decreases 18 - i,
    {
        first_route.push(
            Path::new(
                (s.vertical_key_points[i], s.horizontal_key_points[0]),
                (s.vertical_key_points[i], s.horizontal_key_points[2]),
            ),
        );
        i = i + 2;
    }
    routes.push(first_route);

    let mut second_route: Vec<Path> = Vec::new();
    let mut i: usize = 2;
    while i < 17
        invariant
            s.wf(),
            i % 2 == 0,
            2 <= i <= 18,
            second_route@.len() == (i - 2) / 2,
            forall|j: int|
                0 <= j < second_route@.len() ==> (#[trigger] second_route@[j]) == road_path(
                    1,
                    j,
                    *s,
                ),
        decreases 18 - i,
    {
        second_route.push(
            Path::new(
                (s.vertical_key_points[0], s.horizontal_key_points[i]),
                (s.vertical_key_points[2], s.horizontal_key_points[i]),
            ),
        );
        i = i + 2;
    }
    routes.push(second_route);

    let mut third_route: Vec<Path> = Vec::new();
    let mut i: usize = 2;
    while i < 17
        invariant
            s.wf(),
            i % 2 == 0,
            2 <= i <= 18,
            third_route@.len() == (i - 2) / 2,
            forall|j: int|
                0 <= j < third_route@.len() ==> (#[trigger] third_route@[j]) == road_path(
                    2,
                    j,
                    *s,
                ),
        decreases 18 - i,
    {
        third_route.push(
            Path::new(
                (s.vertical_key_points[16], s.horizontal_key_points[i]),
                (s.vertical_key_points[14], s.horizontal_key_points[i]),
            ),
        );
        i = i + 2;
    }
    routes.push(third_route);

    let mut fourth_route: Vec<Path> = Vec::new();
    let mut i: usize = 2;
    while i < 17
        invariant
            s.wf(),
            i % 2 == 0,
            2 <= i <= 18,
            fourth_route@.len() == (i - 2) / 2,
            forall|j: int|
                0 <= j < fourth_route@.len() ==> (#[trigger] fourth_route@[j]) == road_path(
                    3,
                    j,
                    *s,
                ),
        decreases 18 - i,
    {
        fourth_route.push(
            Path::new(
                (s.vertical_key_points[i], s.horizontal_key_points[16]),
                (s.vertical_key_points[i], s.horizontal_key_points[14]),
            ),
        );
        i = i + 2;
    }
    routes.push(fourth_route);

    (routes, xy)
}

/// The arrow directions painted on the lanes of each road group.
pub fn get_direction(index: usize) -> (r: Vec<String>)
    requires
        index < 4,
    ensures
        r@.len() == 3,
        index == 0 ==> r@[0]@ == "left"@ && r@[1]@ == "down"@ && r@[2]@ == "right"@,
        index == 1 ==> r@[0]@ == "up"@ && r@[1]@ == "right"@ && r@[2]@ == "down"@,
        index == 2 ==> r@[0]@ == "up"@ && r@[1]@ == "left"@ && r@[2]@ == "down"@,
        index == 3 ==> r@[0]@ == "left"@ && r@[1]@ == "up"@ && r@[2]@ == "right"@,
{
    let r: Vec<String> = if index == 0 {
        vec![
            String::from_str("left"),
            String::from_str("down"),
            String::from_str("right"),
        ]
    } else if index == 1 {
        vec![String::from_str("up"), String::from_str("right"), String::from_str("down")]
    } else if index == 2 {
        vec![String::from_str("up"), String::from_str("left"), String::from_str("down")]
    } else {
        vec![String::from_str("left"), String::from_str("up"), String::from_str("right")]
    };
    r
}

} // verus!
