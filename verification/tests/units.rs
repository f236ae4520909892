use smart_road::{
    blocks, create_roads, get_direction, Cross, Direction, Itineraire, Point, Route, Settings,
    Statistics, Vehicle, Vilosity,
};

fn standard_settings() -> Settings {
    Settings::new(1000, 1000, 30, 1, 100)
}

#[test]
fn settings_key_points_exact() {
    let s = standard_settings();
    let expected = vec![
        0, 272, 317, 333, 378, 394, 439, 455, 500, 515, 561, 576, 622, 637, 683, 698, 1000,
    ];
    assert_eq!(s.vertical_key_points, expected);
    assert_eq!(s.horizontal_key_points, expected);
    assert_eq!(s.offset_road, 61);
    assert_eq!(s.safety_distance, 100);
}

#[test]
fn settings_geometry_check() {
    let s = standard_settings();
    assert!(s.check_geometry());
    let degenerate = Settings::new(0, 0, 30, 1, 100);
    assert!(!degenerate.check_geometry());
}

#[test]
fn vehicle_new_draws_high_tier() {
    for _ in 0..50 {
        let v = Vehicle::new(Direction::Up, Itineraire::Straight);
        assert!(v.velocity == 20 || v.velocity == 30);
        assert_eq!(v.stage, smart_road::Stage::Waiting);
        assert!(!v.is_changed_direction);
        assert_eq!(v.distance_traveled, 0);
    }
}

#[test]
fn vehicle_set_vilosity_tiers() {
    let mut v = Vehicle::new(Direction::Down, Itineraire::Left);
    v.set_vilosity(Vilosity::Reduce);
    assert_eq!(v.velocity, 1);
    v.set_vilosity(Vilosity::Slow);
    assert_eq!(v.velocity, 5);
    v.set_vilosity(Vilosity::Medium);
    assert_eq!(v.velocity, 20);
    v.set_vilosity(Vilosity::Fast);
    assert_eq!(v.velocity, 30);
}

#[test]
fn vehicle_spawn_points() {
    let s = standard_settings();
    let mut v = Vehicle::new(Direction::Up, Itineraire::Straight);
    v.spawn(Direction::Up, &s);
    assert_eq!(v.position, Point { x: 576, y: 1000 });
    let mut v = Vehicle::new(Direction::Right, Itineraire::Left);
    v.spawn(Direction::Right, &s);
    assert_eq!(v.position, Point { x: 0, y: 515 });
    let mut v = Vehicle::new(Direction::Left, Itineraire::Right);
    v.spawn(Direction::Left, &s);
    assert_eq!(v.position, Point { x: 1000, y: 333 });
}

#[test]
fn vehicle_car_following_matches_velocity() {
    let s = standard_settings();
    let mut follower = Vehicle::new(Direction::Up, Itineraire::Straight);
    follower.spawn(Direction::Up, &s);
    let mut leader = Vehicle::new(Direction::Up, Itineraire::Straight);
    leader.spawn(Direction::Up, &s);
    leader.position.y = follower.position.y - 50;
    leader.velocity = 1;
    follower.velocity = 30;
    // 50 units apart is within safety_distance + 10, so the velocity matches.
    follower.adjust_velocity(&leader, &s);
    assert_eq!(follower.velocity, 1);
    // 300 units apart is outside the margin, so the velocity stays.
    leader.position.y = follower.position.y - 300;
    follower.velocity = 30;
    follower.adjust_velocity(&leader, &s);
    assert_eq!(follower.velocity, 30);
}

#[test]
fn vehicle_reached_end_bounds() {
    let s = standard_settings();
    let mut v = Vehicle::new(Direction::Up, Itineraire::Straight);
    v.spawn(Direction::Up, &s);
    assert!(!v.has_reached_end(&s));
    v.position.y = -30;
    assert!(!v.has_reached_end(&s));
    v.position.y = -31;
    assert!(v.has_reached_end(&s));
    v.position.y = 500;
    v.position.x = 1031;
    assert!(v.has_reached_end(&s));
}

#[test]
fn add_vehicle_respects_safety_distance_and_cap() {
    let s = standard_settings();
    let mut r = Route::new(Itineraire::Straight, Cross::Fourth, Point::new(0, 698));
    r.add_vehicle(Direction::Up, &s);
    assert_eq!(r.vehicles.len(), 1);
    // The tail still sits on the spawn point: the next spawn is dropped.
    r.add_vehicle(Direction::Up, &s);
    assert_eq!(r.vehicles.len(), 1);
    // Move the tail out of the way and the spawn is accepted, up to the cap.
    for expected in 2..=5 {
        let n = r.vehicles.len();
        r.vehicles[n - 1].position.y = 700;
        r.add_vehicle(Direction::Up, &s);
        assert_eq!(r.vehicles.len(), expected);
    }
    // Queue holds five: even a distant tail does not let a sixth in.
    let n = r.vehicles.len();
    r.vehicles[n - 1].position.y = 500;
    r.add_vehicle(Direction::Up, &s);
    assert_eq!(r.vehicles.len(), 5);
}

#[test]
fn distance_to_stop_point_first_qualifying() {
    let s = standard_settings();
    let mut r = Route::new(Itineraire::Straight, Cross::Fourth, Point::new(0, 698));
    assert_eq!(r.distance_to_stop_point(), 10000);
    r.add_vehicle(Direction::Up, &s);
    r.vehicles[0].position.y = 738;
    assert_eq!(r.distance_to_stop_point(), 40);
    // A vehicle already past the stop point is skipped.
    r.vehicles[0].position.y = 600;
    assert_eq!(r.distance_to_stop_point(), 10000);
}

#[test]
fn statistics_retrieve_extremes() {
    let mut stats = Statistics::new();
    let mut a = Vehicle::new(Direction::Up, Itineraire::Straight);
    a.max_vilosity = 30;
    a.min_vilosity = 20;
    a.time = 100;
    let mut b = Vehicle::new(Direction::Up, Itineraire::Straight);
    b.max_vilosity = 20;
    b.min_vilosity = 1;
    b.time = 50;
    stats.retrieve(&a);
    stats.retrieve(&b);
    assert_eq!(stats.max_vehicles_passed, 2);
    assert_eq!(stats.max_velocity, 30);
    assert_eq!(stats.min_velocity, 1);
    assert_eq!(stats.max_time_to_pass, 100);
    assert_eq!(stats.min_time_to_pass, 50);
    assert_eq!(stats.close_calls, 0);
}

#[test]
fn conflict_table_shape() {
    let table = blocks();
    assert_eq!(table.len(), 8);
    assert_eq!(table[0].lane, (Cross::First, Itineraire::Left));
    assert_eq!(table[7].lane, (Cross::Fourth, Itineraire::Straight));
    // Every row lists its own identity.
    for b in &table {
        assert!(b.intersections.iter().any(|e| *e == b.lane));
    }
    // The table is symmetric.
    for b in &table {
        for e in &b.intersections {
            if *e == b.lane {
                continue;
            }
            let other = table.iter().find(|ob| ob.lane == *e).unwrap();
            assert!(
                other.intersections.iter().any(|x| *x == b.lane),
                "asymmetric pair"
            );
        }
    }
}

#[test]
fn roads_shape_and_endpoints() {
    let s = standard_settings();
    let (roads, xy) = create_roads(&s);
    assert_eq!(roads.len(), 4);
    for group in &roads {
        assert_eq!(group.len(), 8);
    }
    assert_eq!(roads[0][0].start, Point { x: 317, y: 0 });
    assert_eq!(roads[0][0].end, Point { x: 317, y: 317 });
    assert_eq!(roads[2][7].start, Point { x: 1000, y: 1000 });
    assert_eq!(roads[2][7].end, Point { x: 683, y: 1000 });
    assert_eq!(xy, vec![272, 272, 698, 698]);
}

#[test]
fn direction_words() {
    assert_eq!(get_direction(0), vec!["left", "down", "right"]);
    assert_eq!(get_direction(1), vec!["up", "right", "down"]);
    assert_eq!(get_direction(2), vec!["up", "left", "down"]);
    assert_eq!(get_direction(3), vec!["left", "up", "right"]);
}

#[test]
fn crossed_vehicle_rerandomized_high_tier() {
    let s = standard_settings();
    let mut r = Route::new(Itineraire::Straight, Cross::Fourth, Point::new(0, 698));
    r.add_vehicle(Direction::Up, &s);
    let mut stats = Statistics::new();
    for _ in 0..20 {
        r.vehicles[0].stage = smart_road::Stage::Crossed;
        r.vehicles[0].position.y = 200;  // far from the stop point
        r.vehicles[0].velocity = 5;
        r.adjust_velocity_vehicle_in_route(&s, &mut stats);
        assert!(r.vehicles[0].velocity == 20 || r.vehicles[0].velocity == 30);
    }
}

#[test]
fn route_reverts_to_waiting_when_queue_drains() {
    let s = standard_settings();
    let mut stats = Statistics::new();
    let mut r = Route::new(Itineraire::Straight, Cross::Fourth, Point::new(0, 698));
    // An empty granted route reverts immediately.
    r.stage = smart_road::Stage::Crossing;
    r.update(&s, &mut stats);
    assert_eq!(r.stage, smart_road::Stage::Waiting);
    // A granted route with a vehicle mid-intersection keeps the grant, and
    // releases it once no vehicle is still crossing.
    r.add_vehicle(Direction::Up, &s);
    r.vehicles[0].is_stopped = true;
    r.vehicles[0].stage = smart_road::Stage::Crossing;
    r.stage = smart_road::Stage::Crossing;
    r.update(&s, &mut stats);
    assert_eq!(r.stage, smart_road::Stage::Crossing);
    assert!(r.is_vehicle_in_intersection);
    r.vehicles[0].stage = smart_road::Stage::Crossed;
    r.vehicles[0].position.y = 200;
    r.update(&s, &mut stats);
    assert_eq!(r.stage, smart_road::Stage::Waiting);
    // A waiting route never promotes itself.
    r.update(&s, &mut stats);
    assert_eq!(r.stage, smart_road::Stage::Waiting);
}
