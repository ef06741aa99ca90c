use smart_road::config::{SCAN_DISTANCE, SECTOR_WIDTH, SPEED_LIMIT, WINDOW_SIZE};
use smart_road::{Car, Direction, Model, Moving, Route, Statistics, Turning};

#[test]
fn new_car_waits_one_sector_before_its_entry() {
    let c = Car::new(Direction::North, Turning::Straight, 7, 5);
    assert_eq!((c.x, c.y), (4 * SECTOR_WIDTH, -SECTOR_WIDTH));
    assert_eq!(c.index, 0);
    assert_eq!(c.vel, 1000);
    assert_eq!(c.moving, Moving::Down);
    assert_eq!(c.id, 7);
    assert_eq!(c.spawned_at, 5);
    let w = Car::new(Direction::West, Turning::Right, 1, 0);
    assert_eq!((w.x, w.y), (-SECTOR_WIDTH, 8 * SECTOR_WIDTH));
    let e = Car::new(Direction::East, Turning::Left, 2, 0);
    assert_eq!((e.x, e.y), (12 * SECTOR_WIDTH, 5 * SECTOR_WIDTH));
    let s = Car::new(Direction::South, Turning::Straight, 3, 0);
    assert_eq!((s.x, s.y), (7 * SECTOR_WIDTH, 12 * SECTOR_WIDTH));
}

#[test]
fn accelerate_at_the_speed_limit_changes_nothing() {
    let mut c = Car::new(Direction::North, Turning::Straight, 0, 0);
    c.vel = SPEED_LIMIT;
    c.accelerate(SCAN_DISTANCE);
    assert_eq!(c.vel, SPEED_LIMIT);
}

#[test]
fn accelerate_is_proportional_to_free_distance() {
    let mut c = Car::new(Direction::North, Turning::Straight, 0, 0);
    c.accelerate(SCAN_DISTANCE);
    assert_eq!(c.vel, 1016);
    let mut d = Car::new(Direction::North, Turning::Straight, 1, 0);
    d.accelerate(SCAN_DISTANCE / 2);
    assert_eq!(d.vel, 1008);
}

#[test]
fn brake_at_rest_stays_at_rest() {
    let mut c = Car::new(Direction::North, Turning::Straight, 0, 0);
    c.stop();
    c.brake(0);
    assert_eq!(c.vel, 0);
    c.brake(1500);
    assert_eq!(c.vel, 0);
}

#[test]
fn brake_lowers_to_the_free_share_and_stops_when_slow() {
    let mut c = Car::new(Direction::North, Turning::Straight, 0, 0);
    c.brake(1500);
    assert_eq!(c.vel, 500);
    c.brake(6000);
    assert_eq!(c.vel, 500);
    c.brake(600);
    assert_eq!(c.vel, 0);
}

#[test]
fn model_draws() {
    assert_eq!(Model::from_draw(0), Model::TaxiVert);
    assert_eq!(Model::from_draw(1), Model::Sport);
    assert_eq!(Model::from_draw(5), Model::TaxiOrange);
    assert_eq!(Model::from_draw(8), Model::Standard);
}

#[test]
fn lone_car_advances_and_leaves() {
    let mut c = Car::new(Direction::West, Turning::Straight, 0, 0);
    let mut stats = Statistics::new();
    let mut last_index = c.index;
    let mut ticks = 0;
    while !c.is_done() {
        c.move_car(&[], &mut stats);
        assert!(c.index >= last_index && c.index <= last_index + 1);
        assert!(c.vel <= SPEED_LIMIT);
        last_index = c.index;
        ticks += 1;
        assert!(ticks < 5000);
    }
    assert_eq!(c.index, c.path.sectors.len() - 1);
    assert!(c.x >= WINDOW_SIZE);
    assert_eq!(stats.collision_events(), 0);
}

#[test]
fn car_stops_when_its_next_sector_is_claimed() {
    let mut a = Car::new(Direction::North, Turning::Straight, 0, 0);
    a.y = -1;
    let mut b = Car::new(Direction::North, Turning::Straight, 1, 0);
    b.index = 1;
    let mut stats = Statistics::new();
    a.move_car(&[b.clone()], &mut stats);
    assert_eq!(a.index, 0);
    assert_eq!(a.vel, 0);
}

#[test]
fn car_advances_when_next_sector_is_free() {
    let mut a = Car::new(Direction::North, Turning::Straight, 0, 0);
    a.y = -1;
    let mut stats = Statistics::new();
    a.move_car(&[], &mut stats);
    assert_eq!(a.index, 1);
}

#[test]
fn proximity_reports_collisions_and_close_calls() {
    let a = Car::new(Direction::North, Turning::Straight, 0, 0);
    let mut b = Car::new(Direction::North, Turning::Straight, 1, 0);
    b.y = a.y + 500;
    let mut c = Car::new(Direction::North, Turning::Straight, 2, 0);
    c.y = a.y - 850;
    let mut d = Car::new(Direction::North, Turning::Straight, 3, 0);
    d.y = a.y - 2000;
    let mut stats = Statistics::new();
    a.record_proximity(&[b, c, d, a.clone()], &mut stats);
    assert_eq!(stats.collision_events(), 1);
    assert_eq!(stats.close_call_events(), 1);
}

#[test]
fn borders_and_done() {
    let mut c = Car::new(Direction::South, Turning::Straight, 0, 0);
    let b = c.borders();
    assert_eq!((b.top, b.left, b.right, b.bottom), (c.y, c.x, c.x + SECTOR_WIDTH, c.y + SECTOR_WIDTH));
    assert!(!c.is_done());
    c.y = -SECTOR_WIDTH;
    assert!(c.is_done());
}

#[test]
fn transit_time_is_reported_in_ticks() {
    let c = Car::new(Direction::South, Turning::Straight, 0, 40);
    let mut stats = Statistics::new();
    c.add_time(&mut stats, 160);
    assert_eq!(stats.min_time(), 120);
    assert_eq!(stats.max_time(), 120);
}

#[test]
fn empty_lanes_are_available() {
    let r = Route::new(Direction::North);
    assert_eq!(r.available_lanes(), [true, true, true]);
    assert_eq!(r.available_paths(), vec![Turning::Left, Turning::Straight, Turning::Right]);
    assert!(r.get_available_path().is_some());
}

#[test]
fn lane_with_a_car_in_the_entry_zone_is_not_available() {
    let mut r = Route::new(Direction::East);
    r.add_car(Car::new(Direction::East, Turning::Straight, 0, 0));
    assert_eq!(r.available_lanes(), [true, false, true]);
    r.straight[0].index = 2;
    assert_eq!(r.available_lanes(), [true, false, true]);
    r.straight[0].index = 3;
    assert_eq!(r.available_lanes(), [true, true, true]);
}

#[test]
fn no_lane_available_gives_no_turn() {
    let mut r = Route::new(Direction::South);
    r.add_car(Car::new(Direction::South, Turning::Left, 0, 0));
    r.add_car(Car::new(Direction::South, Turning::Straight, 1, 0));
    r.add_car(Car::new(Direction::South, Turning::Right, 2, 0));
    assert!(r.available_paths().is_empty());
    assert_eq!(r.get_available_path(), None);
    r.left[0].index = 5;
    assert_eq!(r.get_available_path(), Some(Turning::Left));
}

#[test]
fn cleanup_removes_done_cars_and_reports_their_time() {
    let mut r = Route::new(Direction::West);
    let mut a = Car::new(Direction::West, Turning::Straight, 0, 10);
    a.x = WINDOW_SIZE;
    let b = Car::new(Direction::West, Turning::Straight, 1, 20);
    r.add_car(a);
    r.add_car(b);
    let mut stats = Statistics::new();
    r.cleanup_cars(&mut stats, 100);
    assert_eq!(r.straight.len(), 1);
    assert_eq!(r.straight[0].id, 1);
    assert_eq!(stats.max_time(), 90);
}

#[test]
fn right_turn_reports_no_proximity() {
    let mut a = Car::new(Direction::North, Turning::Right, 0, 0);
    a.index = 3;
    let mut b = Car::new(Direction::North, Turning::Straight, 1, 0);
    b.x = a.x + 100;
    b.y = a.y;
    let mut stats = Statistics::new();
    a.move_car(&[b], &mut stats);
    assert_eq!(stats.collision_events(), 0);
    assert_eq!(stats.close_call_events(), 0);
}

#[test]
fn entering_car_reports_no_proximity() {
    let mut a = Car::new(Direction::North, Turning::Straight, 0, 0);
    let mut b = Car::new(Direction::West, Turning::Straight, 1, 0);
    b.x = a.x + 100;
    b.y = a.y + 100;
    let mut stats = Statistics::new();
    a.move_car(&[b], &mut stats);
    assert_eq!(a.index, 0);
    assert_eq!(stats.collision_events(), 0);
}
