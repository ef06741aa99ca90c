use smart_road::Statistics;

#[test]
fn running_extremes_of_velocities() {
    let mut s = Statistics::new();
    for v in [1200u64, 700, 1900, 900] {
        s.set_velocity(v);
    }
    assert_eq!(s.min_velocity(), 700);
    assert_eq!(s.max_velocity(), 1900);
}

#[test]
fn minimum_ignores_the_zero_placeholder() {
    let mut s = Statistics::new();
    assert_eq!(s.min_velocity(), 0);
    s.set_velocity(1500);
    assert_eq!(s.min_velocity(), 1500);
    s.set_velocity(1600);
    assert_eq!(s.min_velocity(), 1500);
}

#[test]
fn transit_times_and_their_average() {
    let mut s = Statistics::default();
    s.set_time(300);
    s.set_time(100);
    s.set_time(200);
    assert_eq!(s.min_time(), 100);
    assert_eq!(s.max_time(), 300);
    // no events yet: each new time replaces the average
    assert_eq!(s.average_time(), 200);
}

#[test]
fn running_average_is_weighted_by_event_count() {
    let mut s = Statistics::new();
    s.add_time(90);
    assert_eq!(s.average_time(), 90);
    s.set_close_calls();
    s.set_collisions();
    s.set_time(30);
    assert_eq!(s.average_time(), 70);
    assert_eq!(s.min_time(), 30);
    assert_eq!(s.max_time(), 30);
}

#[test]
fn event_rates_halve_and_divide_by_ticks_per_second() {
    let mut s = Statistics::new();
    for _ in 0..240 {
        s.set_close_calls();
    }
    for _ in 0..119 {
        s.set_collisions();
    }
    assert_eq!(s.close_call_events(), 240);
    assert_eq!(s.close_calls(), 2);
    assert_eq!(s.collision_events(), 119);
    assert_eq!(s.collisions(), 0);
}

#[test]
fn max_vehicles_only_grows() {
    let mut s = Statistics::new();
    s.set_max_vehicles(4);
    s.set_max_vehicles(2);
    assert_eq!(s.max_vehicles(), 4);
    s.set_max_vehicles(7);
    assert_eq!(s.max_vehicles(), 7);
}

#[test]
fn average_time_is_the_event_weighted_running_average() {
    let mut s = Statistics::new();
    s.add_time(4);
    assert_eq!(s.average_time(), 4);
}

#[test]
fn recorded_velocity_sequence_gives_its_extremes() {
    let mut s = Statistics::new();
    s.set_velocities(&[1200, 700, 1900, 900]);
    assert_eq!(s.min_velocity(), 700);
    assert_eq!(s.max_velocity(), 1900);
}
