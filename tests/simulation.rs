use smart_road::config::{CLOSE_CALL_DISTANCE, COLLISION_DISTANCE};
use smart_road::{Car, Direction, State, Turning};

fn road_index(d: Direction) -> usize {
    match d {
        Direction::North => 0,
        Direction::East => 1,
        Direction::South => 2,
        Direction::West => 3,
    }
}

fn spawn(state: &mut State, d: Direction, t: Turning) {
    let id = state.next_id;
    state.next_id += 1;
    let car = Car::new(d, t, id, state.tick);
    state.roads[road_index(d)].add_car(car);
}

fn cars(state: &State) -> Vec<Car> {
    let mut v = Vec::new();
    for r in &state.roads {
        v.extend(r.left.iter().cloned());
        v.extend(r.straight.iter().cloned());
        v.extend(r.right.iter().cloned());
    }
    v
}

fn distance(a: &Car, b: &Car) -> u64 {
    a.x.abs_diff(b.x).max(a.y.abs_diff(b.y))
}

#[test]
fn four_straight_crossings_all_finish_without_collision() {
    let mut state = State::new();
    for d in [Direction::North, Direction::East, Direction::South, Direction::West] {
        spawn(&mut state, d, Turning::Straight);
    }
    let mut ticks = 0;
    while !cars(&state).is_empty() {
        state.update();
        ticks += 1;
        assert!(ticks < 3000, "the crossing did not finish");
    }
    assert_eq!(state.stats.max_vehicles(), 4);
    assert_eq!(state.stats.collisions(), 0);
    assert_eq!(state.stats.collision_events(), 0);
}

#[test]
fn left_turn_and_crossing_straight_never_claim_one_sector() {
    let mut state = State::new();
    spawn(&mut state, Direction::North, Turning::Left);
    spawn(&mut state, Direction::South, Turning::Straight);
    let mut closest = u64::MAX;
    let mut ticks = 0;
    loop {
        let v = cars(&state);
        if v.is_empty() {
            break;
        }
        for i in 0..v.len() {
            for j in i + 1..v.len() {
                let (a, b) = (&v[i], &v[j]);
                assert!(a.path.sectors[a.index] != b.path.sectors[b.index]);
                closest = closest.min(distance(a, b));
            }
        }
        state.update();
        ticks += 1;
        assert!(ticks < 3000, "the crossing did not finish");
    }
    if closest < CLOSE_CALL_DISTANCE && closest >= COLLISION_DISTANCE {
        assert!(state.stats.close_call_events() > 0);
    }
}

#[test]
fn spawning_respects_lane_admission() {
    let mut state = State::new();
    assert!(state.add_car(Direction::North));
    assert!(state.add_car(Direction::North));
    assert!(state.add_car(Direction::North));
    assert!(!state.add_car(Direction::North));
    assert_eq!(state.next_id, 3);
    assert_eq!(state.roads[0].left.len(), 1);
    assert_eq!(state.roads[0].straight.len(), 1);
    assert_eq!(state.roads[0].right.len(), 1);
    assert!(state.add_car(Direction::East));
    assert_eq!(state.roads[1].direction, Direction::East);
}

#[test]
fn random_traffic_keeps_claims_apart() {
    let mut state = State::new();
    for tick in 0..3000 {
        if tick % 40 == 0 {
            state.add_car_random();
        }
        state.update();
        let v = cars(&state);
        for i in 0..v.len() {
            for j in i + 1..v.len() {
                let (a, b) = (&v[i], &v[j]);
                assert!(a.path.sectors[a.index] != b.path.sectors[b.index]);
            }
            assert!(v[i].vel <= smart_road::config::SPEED_LIMIT);
        }
    }
    assert_eq!(state.tick, 3000);
}

#[test]
fn spawned_car_starts_at_its_entry_with_the_next_id() {
    let mut state = State::new();
    state.tick = 9;
    assert!(state.add_car(Direction::West));
    assert_eq!(state.total_cars, 1);
    let v = cars(&state);
    assert_eq!(v.len(), 1);
    let c = &v[0];
    assert_eq!((c.id, c.index, c.spawned_at, c.vel), (0, 0, 9, 1000));
    assert_eq!(c.direction, Direction::West);
    assert_eq!(c.x, -smart_road::config::SECTOR_WIDTH);
    assert_eq!(state.next_id, 1);
}

#[test]
fn exhausted_identifiers_spawn_nothing() {
    let mut state = State::new();
    state.next_id = usize::MAX;
    assert!(!state.add_car(Direction::South));
    assert!(!state.add_car_random());
    assert!(cars(&state).is_empty());
}
