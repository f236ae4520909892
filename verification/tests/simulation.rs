use smart_road::{
    blocks, smart_intersection, spawn, tick, Cross, Direction, Itineraire, Lane, Point, Route,
    Settings, Stage, Statistics, Vehicle,
};

fn standard_settings() -> Settings {
    Settings::new(1000, 1000, 30, 1, 100)
}

fn fresh_lanes(s: &Settings) -> Vec<Lane> {
    vec![
        Lane::new(Cross::First, s),
        Lane::new(Cross::Second, s),
        Lane::new(Cross::Third, s),
        Lane::new(Cross::Fourth, s),
    ]
}

fn stage_rank(s: Stage) -> u32 {
    match s {
        Stage::Waiting => 0,
        Stage::Crossing => 1,
        Stage::Crossed => 2,
    }
}

/// No two conflicting identities are Crossing at once.
fn check_mutual_exclusion(lanes: &Vec<Lane>) {
    let table = blocks();
    for b in &table {
        let own = lane_route(lanes, b.lane);
        if own.stage != Stage::Crossing {
            continue;
        }
        for e in &b.intersections {
            if *e == b.lane {
                continue;
            }
            assert!(
                lane_route(lanes, *e).stage != Stage::Crossing,
                "two conflicting routes crossing at once"
            );
        }
    }
}

fn lane_route(lanes: &Vec<Lane>, id: (Cross, Itineraire)) -> &Route {
    let li = match id.0 {
        Cross::First => 0,
        Cross::Second => 1,
        Cross::Third => 2,
        Cross::Fourth => 3,
    };
    let rj = match id.1 {
        Itineraire::Left => 0,
        Itineraire::Straight => 1,
        Itineraire::Right => 2,
    };
    &lanes[li].routes[rj]
}

/// A vehicle entering from the bottom going straight becomes Crossed exactly
/// when its position passes the exit threshold of its identity, and reaches
/// the end of the map only after leaving the extended canvas.
#[test]
fn straight_vehicle_crosses_at_exit_threshold() {
    let s = standard_settings();
    let exit_threshold = s.horizontal_key_points[4]; // 378
    let mut v = Vehicle::new(Direction::Up, Itineraire::Straight);
    v.spawn(Direction::Up, &s);
    assert_eq!(v.position, Point { x: 576, y: 1000 });

    let mut was_crossed = false;
    let mut steps = 0;
    while !v.has_reached_end(&s) {
        let pre_y = v.position.y;
        let pre_rank = stage_rank(v.stage);
        v.update(&s);
        // The lifecycle never runs backwards.
        assert!(stage_rank(v.stage) >= pre_rank);
        if v.stage == Stage::Crossed {
            if !was_crossed {
                // First Crossed tick: the pre-move position was past the exit.
                assert!(pre_y < exit_threshold);
                was_crossed = true;
            }
        } else {
            // Until it is Crossed, the pre-move position had not passed the exit.
            assert!(pre_y >= exit_threshold);
        }
        steps += 1;
        assert!(steps < 2000, "vehicle never left the map");
    }
    assert!(was_crossed);
    // Off the map means beyond the canvas extended by one vehicle width.
    assert!(v.position.y < -s.vehicle);
}

/// A left-turning vehicle swaps its travel axis exactly at its turn key
/// point and still walks the monotone lifecycle.
#[test]
fn left_turn_vehicle_changes_axis_at_key_point() {
    let s = standard_settings();
    let turn_y = s.horizontal_key_points[7]; // 455
    let mut v = Vehicle::new(Direction::Up, Itineraire::Left);
    v.spawn(Direction::Up, &s);
    assert_eq!(v.position, Point { x: 515, y: 1000 });

    let mut steps = 0;
    while !v.has_reached_end(&s) {
        let pre_rank = stage_rank(v.stage);
        v.update(&s);
        assert!(stage_rank(v.stage) >= pre_rank);
        assert_eq!(v.is_changed_direction, v.position.y <= turn_y);
        if !v.is_changed_direction {
            assert_eq!(v.position.x, 515);
        } else {
            assert!(v.position.y <= turn_y);
        }
        steps += 1;
        assert!(steps < 2000, "vehicle never left the map");
    }
    assert!(v.is_changed_direction);
    assert_eq!(v.stage, Stage::Crossed);
    assert!(v.position.x < -s.vehicle);
}

/// A vehicle in a Waiting route within the safety distance of its stop point
/// is throttled to the reduced tier on the next policy pass.
#[test]
fn waiting_vehicle_near_stop_point_is_reduced() {
    let s = standard_settings();
    let mut stats = Statistics::new();
    let mut r = Route::new(Itineraire::Straight, Cross::First, Point::new(0, 317));
    r.add_vehicle(Direction::Down, &s);
    // 67 units before the stop point: within the 100-unit safety distance.
    r.vehicles[0].position.y = 250;
    assert_eq!(r.stage, Stage::Waiting);
    r.adjust_velocity_vehicle_in_route(&s, &mut stats);
    assert_eq!(r.vehicles[0].velocity, 1);
}

/// With (South, Straight) and (East, Left) both queued and neither granted,
/// the route whose nearest vehicle is closer to its stop point gets the
/// right of way on the next scheduler pass.
#[test]
fn closer_route_wins_the_grant() {
    let s = standard_settings();

    // South entry, going straight: lane Fourth; 40 units from its stop point.
    // East entry, turning left: lane Third; 120 units from its stop point.
    let mut lanes = fresh_lanes(&s);
    lanes[3].routes[1].add_vehicle(Direction::Up, &s);
    lanes[3].routes[1].vehicles[0].position.y = 698 + 40;
    lanes[2].routes[0].add_vehicle(Direction::Left, &s);
    lanes[2].routes[0].vehicles[0].position.x = 698 + 120;
    smart_intersection(&mut lanes);
    assert_eq!(lanes[3].routes[1].stage, Stage::Crossing);
    assert_eq!(lanes[2].routes[0].stage, Stage::Waiting);
    check_mutual_exclusion(&lanes);

    // Swap the distances: now the left turn from the east must win.
    let mut lanes = fresh_lanes(&s);
    lanes[3].routes[1].add_vehicle(Direction::Up, &s);
    lanes[3].routes[1].vehicles[0].position.y = 698 + 120;
    lanes[2].routes[0].add_vehicle(Direction::Left, &s);
    lanes[2].routes[0].vehicles[0].position.x = 698 + 40;
    smart_intersection(&mut lanes);
    assert_eq!(lanes[2].routes[0].stage, Stage::Crossing);
    assert_eq!(lanes[3].routes[1].stage, Stage::Waiting);
    // The losing route saw a conflicting grant while it waited.
    assert!(lanes[3].routes[1].other_route_crossed);
    check_mutual_exclusion(&lanes);
}

/// A stale grant is reverted by the tick ceiling, after which a starved
/// conflicting route is granted.
#[test]
fn stale_grant_reverts_and_starved_route_is_granted() {
    let s = standard_settings();
    let mut stats = Statistics::new();

    // A granted route whose stopped vehicle never reaches the intersection
    // reverts to Waiting after exactly the stale-grant ceiling.
    let mut r = Route::new(Itineraire::Straight, Cross::Fourth, Point::new(0, 698));
    r.add_vehicle(Direction::Up, &s);
    r.vehicles[0].is_stopped = true;
    r.stage = Stage::Crossing;
    let mut ticks: u64 = 0;
    while r.stage == Stage::Crossing {
        r.update(&s, &mut stats);
        ticks += 1;
        assert!(ticks <= 91_000, "grant never reverted");
    }
    assert_eq!(ticks, 90_001);

    // Full scenario: while the grant is held, the waiting conflicting route
    // is only flagged; after the reversion it is granted.
    let mut lanes = fresh_lanes(&s);
    lanes[3].routes[1].add_vehicle(Direction::Up, &s);
    lanes[3].routes[1].vehicles[0].is_stopped = true;
    lanes[3].routes[1].vehicles[0].position.y = 688; // already past its stop point
    lanes[3].routes[1].stage = Stage::Crossing;
    lanes[2].routes[0].add_vehicle(Direction::Left, &s);
    lanes[2].routes[0].vehicles[0].position.x = 698 + 40;
    lanes[2].routes[0].vehicles[0].is_stopped = true;

    smart_intersection(&mut lanes);
    assert_eq!(lanes[2].routes[0].stage, Stage::Waiting);
    assert!(lanes[2].routes[0].other_route_crossed);

    // The flagged throttle of the waiting route counts one near miss.
    let mut stats = Statistics::new();
    lanes[2].update(&s, &mut stats);
    assert_eq!(stats.close_calls, 1);
    lanes[2].update(&s, &mut stats);
    assert_eq!(stats.close_calls, 1);

    // Push the stale grant to its ceiling and let it revert.
    lanes[3].routes[1].time = 90_000;
    lanes[3].update(&s, &mut stats);
    assert_eq!(lanes[3].routes[1].stage, Stage::Waiting);

    smart_intersection(&mut lanes);
    assert_eq!(lanes[2].routes[0].stage, Stage::Crossing);
    check_mutual_exclusion(&lanes);
}

/// Random traffic keeps the conflict-table invariant tick after tick.
#[test]
fn simulated_traffic_preserves_mutual_exclusion() {
    let s = standard_settings();
    assert!(s.check_geometry());
    let mut lanes = fresh_lanes(&s);
    let mut stats = Statistics::new();
    let dirs = [
        Direction::Up,
        Direction::Down,
        Direction::Left,
        Direction::Right,
    ];
    for t in 0..600 {
        if t % 3 == 0 {
            spawn(&mut lanes, dirs[(t / 3) % 4], &s);
        }
        tick(&mut lanes, &s, &mut stats);
        check_mutual_exclusion(&lanes);
        for lane in lanes.iter() {
            for route in lane.routes.iter() {
                assert!(route.stage != Stage::Crossed);
                for v in route.vehicles.iter() {
                    assert!(!v.has_reached_end(&s));
                }
            }
        }
    }
}
