use smart_road::{Direction, Moving, Path, Sector, Turning};

const DIRECTIONS: [Direction; 4] = [Direction::North, Direction::East, Direction::South, Direction::West];
const TURNS: [Turning; 3] = [Turning::Left, Turning::Straight, Turning::Right];

fn waypoints(d: Direction, t: Turning) -> [(usize, usize); 3] {
    match (t, d) {
        (Turning::Left, Direction::North) => [(5, 0), (5, 6), (11, 6)],
        (Turning::Left, Direction::East) => [(11, 5), (5, 5), (5, 11)],
        (Turning::Left, Direction::South) => [(6, 11), (6, 5), (0, 5)],
        (Turning::Left, Direction::West) => [(0, 6), (6, 6), (6, 0)],
        (Turning::Straight, Direction::North) => [(4, 0), (4, 5), (4, 11)],
        (Turning::Straight, Direction::East) => [(11, 4), (5, 4), (0, 4)],
        (Turning::Straight, Direction::South) => [(7, 11), (7, 5), (7, 0)],
        (Turning::Straight, Direction::West) => [(0, 7), (5, 7), (11, 7)],
        (Turning::Right, Direction::North) => [(3, 0), (3, 3), (0, 3)],
        (Turning::Right, Direction::East) => [(11, 3), (8, 3), (8, 0)],
        (Turning::Right, Direction::South) => [(8, 11), (8, 8), (11, 8)],
        (Turning::Right, Direction::West) => [(0, 8), (3, 8), (3, 11)],
    }
}

fn manhattan(a: (usize, usize), b: (usize, usize)) -> usize {
    a.0.abs_diff(b.0) + a.1.abs_diff(b.1)
}

#[test]
fn every_path_runs_from_entry_to_exit_closing_in_on_each_waypoint() {
    for d in DIRECTIONS {
        for t in TURNS {
            let p = Path::new(&d, &t);
            let w = waypoints(d, t);
            let cells: Vec<(usize, usize)> = p.sectors.iter().map(|s| (s.get_x(), s.get_y())).collect();
            assert_eq!(cells[0], w[0]);
            assert_eq!(*cells.last().unwrap(), w[2]);
            let k = cells.iter().position(|c| *c == w[1]).unwrap();
            for i in 1..cells.len() {
                let target = if i <= k { w[1] } else { w[2] };
                assert!(manhattan(cells[i], target) < manhattan(cells[i - 1], target));
                assert!(cells[i].0.abs_diff(cells[i - 1].0) <= 1);
                assert!(cells[i].1.abs_diff(cells[i - 1].1) <= 1);
            }
        }
    }
}

#[test]
fn path_construction_is_deterministic() {
    for d in DIRECTIONS {
        for t in TURNS {
            let a = Path::new(&d, &t);
            let b = Path::new(&d, &t);
            assert_eq!(a.sectors.len(), b.sectors.len());
            for (x, y) in a.sectors.iter().zip(b.sectors.iter()) {
                assert_eq!((x.get_x(), x.get_y(), x.moving), (y.get_x(), y.get_y(), y.moving));
            }
        }
    }
}

#[test]
fn path_lengths() {
    assert_eq!(Path::new(&Direction::North, &Turning::Left).sectors.len(), 13);
    assert_eq!(Path::new(&Direction::North, &Turning::Straight).sectors.len(), 12);
    assert_eq!(Path::new(&Direction::North, &Turning::Right).sectors.len(), 7);
    assert_eq!(Path::new(&Direction::West, &Turning::Right).sectors.len(), 7);
}

#[test]
fn left_turn_headings_change_after_the_turning_point() {
    let p = Path::new(&Direction::North, &Turning::Left);
    for s in &p.sectors[..7] {
        assert_eq!(s.moving, Moving::Down);
    }
    for s in &p.sectors[7..] {
        assert_eq!(s.moving, Moving::Right);
    }
    assert_eq!((p.sectors[6].get_x(), p.sectors[6].get_y()), (5, 6));
}

#[test]
fn sectors_compare_by_coordinates_only() {
    assert!(Sector::new(3, 4, Moving::Up) == Sector::new(3, 4, Moving::Left));
    assert!(Sector::new(3, 4, Moving::Up) != Sector::new(4, 3, Moving::Up));
    let s = Sector::new(7, 2, Moving::Down);
    assert_eq!((s.get_x(), s.get_y()), (7, 2));
}
