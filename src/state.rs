//! The simulation driver: one route per entry direction, spawning, the per-tick pass
//! over every vehicle, and the removal of the vehicles that left.
use crate::car::{entry_coords, ticked, tick_reported, all_wf, claims_apart, lemma_advance_keeps_claims_apart, lemma_all_wf_insert, lemma_all_wf_remove, Car};
use crate::path::{path_sectors, Direction, Sector, Turning};
use crate::random::random_below;
use crate::road::{record_done, still_running, lane_open, lemma_route_cars_wf, lemma_still_running_within, Route};
use crate::config::INITIAL_VELOCITY;
use crate::statistics::{max_step, min_step, Statistics, StatisticsView};
use vstd::prelude::*;

verus! {

/// The route index of each entry direction.
pub open spec fn road_of(d: Direction) -> int {
    match d {
        Direction::North => 0,
        Direction::East => 1,
        Direction::South => 2,
        Direction::West => 3,
    }
}

/// The entry direction drawn as `n` among four.
pub open spec fn direction_of(n: int) -> Direction {
    if n == 0 {
        Direction::North
    } else if n == 1 {
        Direction::East
    } else if n == 2 {
        Direction::South
    } else {
        Direction::West
    }
}

/// Four well-formed routes, the one at index `i` for the direction `road_of` maps to `i`.
pub open spec fn roads_wf(roads: Seq<Route>) -> bool {
    &&& roads.len() == 4
    &&& forall|i: int| 0 <= i < 4 ==> (#[trigger] roads[i]).wf() && road_of(roads[i].direction) == i
}

proof fn lemma_roads_update(roads: Seq<Route>, i: int, route: Route)
    requires
        roads_wf(roads),
        0 <= i < 4,
        route.wf(),
        route.direction == roads[i].direction,
    ensures
        roads_wf(roads.update(i, route)),
{
    let r2 = roads.update(i, route);
    assert(r2.len() == 4);
    assert forall|j: int| 0 <= j < 4 implies (#[trigger] r2[j]).wf() && road_of(r2[j].direction) == j by {
        assert(roads[j].wf());
        if j == i {
            assert(r2[j] == route);
        } else {
            assert(r2[j] == roads[j]);
        }
    }
}

proof fn lemma_road_of_injective(a: Direction, b: Direction)
    requires
        road_of(a) == road_of(b),
    ensures
        a == b,
{
    match a {
        Direction::North => {},
        Direction::East => {},
        Direction::South => {},
        Direction::West => {},
    }
}

/// Vehicle `c` is in one of the lanes of one of the routes.
pub open spec fn in_roads(roads: Seq<Route>, c: Car) -> bool {
    exists|r: int, t: Turning| 0 <= r < roads.len() && #[trigger] roads[r].lane(t).contains(c)
}

/// No two vehicles of the routes with different identities move toward the same sector.
pub open spec fn roads_claims_apart(roads: Seq<Route>) -> bool {
    forall|a: Car, b: Car|
        #[trigger] in_roads(roads, a) && #[trigger] in_roads(roads, b) && a.id != b.id ==> !a.target().same_cell(
            b.target(),
        )
}

/// A vehicle of the routes after one of them is replaced was in the routes before or
/// is in the replacing route.
proof fn lemma_in_roads_update(roads: Seq<Route>, i: int, route: Route, c: Car)
    requires
        0 <= i < roads.len(),
        in_roads(roads.update(i, route), c),
    ensures
        in_roads(roads, c) || exists|t: Turning| #[trigger] route.lane(t).contains(c),
{
    let u = roads.update(i, route);
    let (r, t) = choose|r: int, t: Turning| 0 <= r < u.len() && #[trigger] u[r].lane(t).contains(c);
    if r != i {
        assert(roads[r].lane(t).contains(c));
    } else {
        assert(route.lane(t).contains(c));
    }
}

/// The claims of vehicles that all come from a sequence whose claims are apart are apart.
proof fn lemma_claims_apart_within(roads: Seq<Route>, post: Seq<Car>)
    requires
        claims_apart(post),
        forall|c: Car| #[trigger] in_roads(roads, c) ==> post.contains(c),
    ensures
        roads_claims_apart(roads),
{
    assert forall|a: Car, b: Car|
        #[trigger] in_roads(roads, a) && #[trigger] in_roads(roads, b) && a.id != b.id implies !a.target().same_cell(
        b.target(),
    ) by {
        assert(post.contains(a));
        assert(post.contains(b));
        let i = choose|i: int| 0 <= i < post.len() && post[i] == a;
        let j = choose|j: int| 0 <= j < post.len() && post[j] == b;
        assert(!post[i].target().same_cell(post[j].target()));
    }
}

pub struct State {
    pub roads: Vec<Route>,
    pub stats: Statistics,
    pub total_cars: usize,
    pub next_id: usize,
    pub tick: u64,
    pub random: bool,
    pub show_final_statistics: bool,
}

impl State {
    pub open spec fn wf(&self) -> bool {
        &&& roads_wf(self.roads@)
        &&& roads_claims_apart(self.roads@)
    }

    pub fn new() -> (r: State)
        ensures
            r.wf(),
            r.tick == 0,
            r.next_id == 0,
            r.total_cars == 0,
            !r.random,
            !r.show_final_statistics,
            r.stats@ == (StatisticsView {
                max_vehicles: 0,
                max_velocity: 0,
                min_velocity: 0,
                max_time: 0,
                min_time: 0,
                close_calls: 0,
                collisions: 0,
                average_time: 0,
            }),
            forall|i: int, t: Turning| 0 <= i < 4 ==> (#[trigger] r.roads@[i].lane(t)).len() == 0,
    {
        let roads = vec![
            Route::new(Direction::North),
            Route::new(Direction::East),
            Route::new(Direction::South),
            Route::new(Direction::West),
        ];
        proof {
            lemma_empty_roads_in_nothing(roads@, seq![]);
            lemma_claims_apart_within(roads@, seq![]);
        }
        State {
            roads,
            stats: Statistics::new(),
            total_cars: 0,
            next_id: 0,
            tick: 0,
            random: false,
            show_final_statistics: false,
        }
    }

    /// Spawns a vehicle entering from `direction`, on a turn picked at random among the
    /// lanes that admit one, unless another vehicle already moves toward the entry sector
    /// of that turn's path. Returns whether a vehicle was spawned.
    pub fn add_car(&mut self, direction: Direction) -> (r: bool)
        requires
            old(self).wf(),
        ensures
            final(self).wf(),
            final(self).tick == old(self).tick,
            r ==> old(self).next_id < usize::MAX && old(self).roads@[road_of(direction)].open_turns().len() > 0,
            spawn_owed(old(self).roads@, old(self).next_id, direction) ==> r,
            final(self).stats@ == old(self).stats@,
            final(self).random == old(self).random,
            final(self).show_final_statistics == old(self).show_final_statistics,
            r ==> final(self).next_id == old(self).next_id + 1,
            r ==> final(self).total_cars == if old(self).total_cars < usize::MAX {
                old(self).total_cars + 1
            } else {
                old(self).total_cars as int
            },
            !r ==> final(self).roads@ == old(self).roads@ && final(self).next_id == old(self).next_id
                && final(self).total_cars == old(self).total_cars,
            r ==> exists|t: Turning|
                lane_open(old(self).roads@[road_of(direction)].lane(t)) && #[trigger] spawned_on(
                    old(self).roads@[road_of(direction)],
                    final(self).roads@[road_of(direction)],
                    t,
                    direction,
                    old(self).next_id,
                    old(self).tick,
                ),
            final(self).roads@[road_of(direction)].direction == old(self).roads@[road_of(direction)].direction,
            forall|i: int| 0 <= i < 4 && i != road_of(direction) ==> #[trigger] final(self).roads@[i] == old(self).roads@[i],
    {
        if self.next_id == usize::MAX {
            return false;
        }
        let i = road_index(direction);
        let t = match self.roads[i].get_available_path() {
            Some(t) => t,
            None => {
                return false;
            },
        };
        let car = Car::new(direction, t, self.next_id, self.tick);
        proof {
            car.lemma_wf_path();
        }
        if self.entry_claimed(car.path.sectors[0]) {
            return false;
        }
        let mut route = self.roads.remove(i);
        assert(route == old(self).roads@[i as int]);
        proof {
            assert(route.wf());
            lemma_road_of_injective(route.direction, direction);
        }
        route.add_car(car);
        assert(route.lane(t) == old(self).roads@[i as int].lane(t).push(car));
        self.next_id = self.next_id + 1;
        if self.total_cars < usize::MAX {
            self.total_cars = self.total_cars + 1;
        }
        self.roads.insert(i, route);
        assert(self.roads@ =~= old(self).roads@.update(i as int, route));
        proof {
            lemma_roads_update(old(self).roads@, i as int, route);
            lemma_add_keeps_claims_apart(old(self).roads@, i as int, route, car);
            assert(self.roads@[road_of(direction)].lane(t).last() == car);
            assert(spawned_on(old(self).roads@[road_of(direction)], self.roads@[road_of(direction)], t, direction,
                old(self).next_id, old(self).tick));
        }
        true
    }

    /// Whether some vehicle of the routes moves toward sector `s`.
    fn entry_claimed(&self, s: Sector) -> (r: bool)
        requires
            roads_wf(self.roads@),
        ensures
            r == claimed_in(self.roads@, s),
    {
        let mut j: usize = 0;
        while j < 4
            invariant
                j <= 4,
                roads_wf(self.roads@),
                forall|r: int, t: Turning, k: int|
                    0 <= r < j && 0 <= k < self.roads@[r].lane(t).len() ==> !(#[trigger] self.roads@[r].lane(
                        t,
                    )[k]).target().same_cell(s),
            decreases 4 - j,
        {
            assert(self.roads@[j as int].wf());
            if self.roads[j].claims(s) {
                proof {
                    let (t, k) = choose|t: Turning, k: int|
                        0 <= k < self.roads@[j as int].lane(t).len() && #[trigger] self.roads@[j as int].lane(
                            t,
                        )[k].target().same_cell(s);
                    let x = self.roads@[j as int].lane(t)[k];
                    assert(self.roads@[j as int].lane(t).contains(x));
                    assert(in_roads(self.roads@, x));
                }
                return true;
            }
            j = j + 1;
        }
        proof {
            assert forall|x: Car| #[trigger] in_roads(self.roads@, x) implies !x.target().same_cell(s) by {
                let (r, t) = choose|r: int, t: Turning| 0 <= r < 4 && #[trigger] self.roads@[r].lane(t).contains(x);
                let k = choose|k: int| 0 <= k < self.roads@[r].lane(t).len() && self.roads@[r].lane(t)[k] == x;
                assert(!self.roads@[r].lane(t)[k].target().same_cell(s));
            }
        }
        false
    }

    /// Spawns a vehicle from a direction drawn at random, as `add_car` does.
    pub fn add_car_random(&mut self) -> (r: bool)
        requires
            old(self).wf(),
        ensures
            final(self).wf(),
            final(self).tick == old(self).tick,
            old(self).next_id == usize::MAX ==> !r,
            (forall|d: Direction| #[trigger] spawn_owed(old(self).roads@, old(self).next_id, d)) ==> r,
            final(self).stats@ == old(self).stats@,
            r ==> final(self).next_id == old(self).next_id + 1,
            !r ==> final(self).roads@ == old(self).roads@ && final(self).next_id == old(self).next_id,
    {
        let d = direction_from_draw(random_below(4));
        self.add_car(d)
    }

    /// One tick: every vehicle, in the order of the routes and of their lanes, moves
    /// while seeing the others as they stand (those before it already moved); each
    /// velocity and the number of vehicles go to the statistics; then the vehicles that
    /// left are reported and removed. No two vehicles with different identities move
    /// toward the same sector before or after.
    pub fn update(&mut self)
        requires
            old(self).wf(),
        ensures
            final(self).wf(),
            ({
                let all = cars_of(old(self).roads@, 4);
                let post = pass(all, old(self).stats@, all.len() as int).0;
                let s1 = pass(all, old(self).stats@, all.len() as int).1;
                let s2 = StatisticsView {
                    max_vehicles: if all.len() > s1.max_vehicles {
                        all.len()
                    } else {
                        s1.max_vehicles
                    },
                    ..s1
                };
                &&& forall|r: int, t: Turning|
                    0 <= r < 4 ==> #[trigger] final(self).roads@[r].lane(t) == still_running(
                        lane_of(post, direction_of(r), t),
                    )
                &&& final(self).stats@ == reaped(s2, post, old(self).tick as int, 4)
            }),
            final(self).random == old(self).random,
            final(self).show_final_statistics == old(self).show_final_statistics,
            final(self).total_cars == old(self).total_cars,
            final(self).next_id == old(self).next_id,
            final(self).tick == if old(self).tick < u64::MAX {
                old(self).tick + 1
            } else {
                old(self).tick as int
            },
    {
        let ghost orig = self.roads@;
        let mut all: Vec<Car> = Vec::new();
        let mut r: usize = 0;
        while r < 4
            invariant
                r <= 4,
                roads_wf(self.roads@),
                all_wf(all@),
                self.next_id == old(self).next_id,
                self.tick == old(self).tick,
                orig.len() == 4,
                forall|j: int| r <= j < 4 ==> #[trigger] self.roads@[j] == orig[j],
                forall|j: int, t: Turning| 0 <= j < r ==> (#[trigger] self.roads@[j].lane(t)).len() == 0,
                forall|k: int| 0 <= k < all@.len() ==> in_roads(orig, #[trigger] all@[k]),
                all@ == cars_of(orig, r as int),
                self.stats@ == old(self).stats@,
                self.random == old(self).random,
                self.show_final_statistics == old(self).show_final_statistics,
                self.total_cars == old(self).total_cars,
            decreases 4 - r,
        {
            let ghost before = self.roads@;
            let ghost acc = all@;
            let mut route = self.roads.remove(r);
            assert(route == before[r as int]);
            route.take_cars(&mut all);
            self.roads.insert(r, route);
            assert(self.roads@ =~= before.update(r as int, route));
            proof {
                lemma_roads_update(before, r as int, route);
                lemma_route_cars_wf(acc, before[r as int]);
                lemma_taken_in_roads(orig, r as int, acc, all@);
                assert(all@ =~= cars_of(orig, r as int + 1));
                assert forall|j: int, t: Turning| 0 <= j < r + 1 implies (#[trigger] self.roads@[j].lane(t)).len()
                    == 0 by {
                    if j == r {
                        match t {
                            Turning::Left => {},
                            Turning::Straight => {},
                            Turning::Right => {},
                        }
                    }
                }
            }
            r = r + 1;
        }
        proof {
            assert forall|i: int, j: int|
                0 <= i < all@.len() && 0 <= j < all@.len() && all@[i].id != all@[j].id implies !(
                #[trigger] all@[i].target()).same_cell(#[trigger] all@[j].target()) by {
                assert(in_roads(orig, all@[i]));
                assert(in_roads(orig, all@[j]));
            }
        }
        let ghost flat = all@;
        let ghost s0 = self.stats@;
        let n = all.len();
        let mut k: usize = 0;
        while k < n
            invariant
                k <= n,
                flat.len() == n,
                all@ == pass(flat, s0, k as int).0,
                self.stats@ == pass(flat, s0, k as int).1,
                self.random == old(self).random,
                self.show_final_statistics == old(self).show_final_statistics,
                self.total_cars == old(self).total_cars,
                all@.len() == n,
                all_wf(all@),
                claims_apart(all@),
                roads_wf(self.roads@),
                forall|j: int, t: Turning| 0 <= j < 4 ==> (#[trigger] self.roads@[j].lane(t)).len() == 0,
                self.next_id == old(self).next_id,
                self.tick == old(self).tick,
            decreases n - k,
        {
            let ghost before = all@;
            proof {
                lemma_all_wf_remove(all@, k as int);
            }
            let mut car = all.remove(k);
            car.move_car(all.as_slice(), &mut self.stats);
            self.stats.set_velocity(car.vel);
            proof {
                lemma_all_wf_insert(all@, k as int, car);
            }
            all.insert(k, car);
            proof {
                assert(all@ =~= before.update(k as int, car));
                lemma_advance_keeps_claims_apart(before, k as int, car);
            }
            assert(pass(flat, s0, k as int + 1).0 == before.update(k as int, ticked(before[k as int], before.remove(k as int))));
            k = k + 1;
        }
        self.stats.set_max_vehicles(n);
        let ghost post = all@;
        let ghost s2 = self.stats@;
        proof {
            lemma_empty_roads_in_nothing(self.roads@, post);
        }
        let ghost mut m: int = 0;
        while all.len() > 0
            invariant
                0 <= m <= n,
                post.len() == n,
                all@ == post.subrange(m, n as int),
                forall|j: int, t: Turning|
                    0 <= j < 4 ==> #[trigger] self.roads@[j].lane(t) == lane_of(post.take(m), direction_of(j), t),
                self.stats@ == s2,
                self.random == old(self).random,
                self.show_final_statistics == old(self).show_final_statistics,
                self.total_cars == old(self).total_cars,
                roads_wf(self.roads@),
                all_wf(all@),
                claims_apart(post),
                forall|k: int| 0 <= k < all@.len() ==> post.contains(#[trigger] all@[k]),
                forall|c: Car| #[trigger] in_roads(self.roads@, c) ==> post.contains(c),
                self.next_id == old(self).next_id,
                self.tick == old(self).tick,
            decreases all@.len(),
        {
            let ghost before = self.roads@;
            let ghost all0 = all@;
            proof {
                lemma_all_wf_remove(all@, 0);
            }
            let car = all.remove(0);
            assert(car == post[m]);
            assert(post.contains(all0[0]));
            assert forall|k: int| 0 <= k < all@.len() implies post.contains(#[trigger] all@[k]) by {
                assert(all@[k] == all0[k + 1]);
            }
            let i = road_index(car.direction);
            let mut route = self.roads.remove(i);
            assert(route == before[i as int]);
            proof {
                assert(route.wf());
                lemma_road_of_injective(route.direction, car.direction);
            }
            route.add_car(car);
            self.roads.insert(i, route);
            assert(self.roads@ =~= before.update(i as int, route));
            proof {
                lemma_direction_road(car.direction);
                assert(post.take(m + 1).drop_last() =~= post.take(m));
                assert(post.take(m + 1).last() == car);
                assert forall|j: int, t: Turning| 0 <= j < 4 implies #[trigger] self.roads@[j].lane(t) == lane_of(
                    post.take(m + 1),
                    direction_of(j),
                    t,
                ) by {
                    assert(before[j].lane(t) == lane_of(post.take(m), direction_of(j), t));
                    if j == i {
                        assert(route.lane(t) == if t == car.turning {
                            before[j].lane(t).push(car)
                        } else {
                            before[j].lane(t)
                        });
                    } else {
                        assert(self.roads@[j] == before[j]);
                        assert(direction_of(j) != car.direction);
                    }
                }
                m = m + 1;
                assert(all@ =~= post.subrange(m, n as int));
                assert forall|c: Car| #[trigger] in_roads(self.roads@, c) implies post.contains(c) by {
                    lemma_in_roads_update(before, i as int, route, c);
                    if !in_roads(before, c) {
                        let t = choose|t: Turning| #[trigger] route.lane(t).contains(c);
                        let q = choose|q: int| 0 <= q < route.lane(t).len() && route.lane(t)[q] == c;
                        if c != car {
                            assert(route.lane(t) == before[i as int].lane(t) || route.lane(t) == before[i as int].lane(
                                t,
                            ).push(car));
                            assert(q < before[i as int].lane(t).len());
                            assert(before[i as int].lane(t)[q] == c);
                            assert(before[i as int].lane(t).contains(c));
                        }
                    }
                }
            }
        }
        assert(post.take(m) =~= post);
        r = 0;
        while r < 4
            invariant
                r <= 4,
                forall|j: int, t: Turning|
                    0 <= j < r ==> #[trigger] self.roads@[j].lane(t) == still_running(
                        lane_of(post, direction_of(j), t),
                    ),
                forall|j: int, t: Turning|
                    r <= j < 4 ==> #[trigger] self.roads@[j].lane(t) == lane_of(post, direction_of(j), t),
                self.stats@ == reaped(s2, post, old(self).tick as int, r as int),
                self.random == old(self).random,
                self.show_final_statistics == old(self).show_final_statistics,
                self.total_cars == old(self).total_cars,
                roads_wf(self.roads@),
                claims_apart(post),
                forall|c: Car| #[trigger] in_roads(self.roads@, c) ==> post.contains(c),
                self.next_id == old(self).next_id,
                self.tick == old(self).tick,
            decreases 4 - r,
        {
            let ghost before = self.roads@;
            let mut route = self.roads.remove(r);
            assert(route == before[r as int]);
            route.cleanup_cars(&mut self.stats, self.tick);
            self.roads.insert(r, route);
            assert(self.roads@ =~= before.update(r as int, route));
            proof {
                assert(before[r as int].lane(Turning::Left) == lane_of(post, direction_of(r as int), Turning::Left));
                assert(before[r as int].lane(Turning::Straight) == lane_of(post, direction_of(r as int), Turning::Straight));
                assert(before[r as int].lane(Turning::Right) == lane_of(post, direction_of(r as int), Turning::Right));
                assert forall|j: int, t: Turning|
                    0 <= j < r + 1 implies #[trigger] self.roads@[j].lane(t) == still_running(
                        lane_of(post, direction_of(j), t),
                    ) by {
                    if j == r {
                        assert(before[j].lane(t) == lane_of(post, direction_of(j), t));
                        match t {
                            Turning::Left => {},
                            Turning::Straight => {},
                            Turning::Right => {},
                        }
                    } else {
                        assert(self.roads@[j] == before[j]);
                    }
                }
                assert forall|j: int, t: Turning|
                    r + 1 <= j < 4 implies #[trigger] self.roads@[j].lane(t) == lane_of(post, direction_of(j), t) by {
                    assert(self.roads@[j] == before[j]);
                }
                lemma_roads_update(before, r as int, route);
                assert forall|c: Car| #[trigger] in_roads(self.roads@, c) implies post.contains(c) by {
                    lemma_in_roads_update(before, r as int, route, c);
                    if !in_roads(before, c) {
                        let t = choose|t: Turning| #[trigger] route.lane(t).contains(c);
                        match t {
                            Turning::Left => lemma_still_running_within(before[r as int].left@, c),
                            Turning::Straight => lemma_still_running_within(before[r as int].straight@, c),
                            Turning::Right => lemma_still_running_within(before[r as int].right@, c),
                        }
                        assert(before[r as int].lane(t).contains(c));
                    }
                }
            }
            r = r + 1;
        }
        proof {
            lemma_claims_apart_within(self.roads@, post);
        }
        if self.tick < u64::MAX {
            self.tick = self.tick + 1;
        }
    }
}

/// The vehicles of a route, lane after lane.
pub open spec fn route_cars(r: Route) -> Seq<Car> {
    r.left@ + r.straight@ + r.right@
}

/// The vehicles of the first `n` routes, route after route.
pub open spec fn cars_of(roads: Seq<Route>, n: int) -> Seq<Car>
    decreases n,
{
    if n <= 0 {
        seq![]
    } else {
        cars_of(roads, n - 1) + route_cars(roads[n - 1])
    }
}

/// The statistics after a vehicle reports its velocity.
pub open spec fn with_velocity(s: StatisticsView, v: int) -> StatisticsView {
    StatisticsView { min_velocity: min_step(s.min_velocity, v), max_velocity: max_step(s.max_velocity, v), ..s }
}

/// The vehicles and the statistics after the first `k` vehicles of `cars` had their tick
/// in order, each seeing all the others as they stand (those before it already moved),
/// then reporting its velocity.
pub open spec fn pass(cars: Seq<Car>, s: StatisticsView, k: int) -> (Seq<Car>, StatisticsView)
    decreases k,
{
    if k <= 0 {
        (cars, s)
    } else {
        let c = pass(cars, s, k - 1).0;
        let t = pass(cars, s, k - 1).1;
        let j = k - 1;
        let me = ticked(c[j], c.remove(j));
        (c.update(j, me), with_velocity(tick_reported(t, c[j], c.remove(j)), me.vel as int))
    }
}

/// The vehicles of `cars` that enter from `d` and turn `t`, in order.
pub open spec fn lane_of(cars: Seq<Car>, d: Direction, t: Turning) -> Seq<Car>
    decreases cars.len(),
{
    if cars.len() == 0 {
        seq![]
    } else if cars.last().direction == d && cars.last().turning == t {
        lane_of(cars.drop_last(), d, t).push(cars.last())
    } else {
        lane_of(cars.drop_last(), d, t)
    }
}

/// The statistics after the vehicles of `cars` that left are reported at tick `now`,
/// for the first `n` routes in order, lane after lane.
pub open spec fn reaped(s: StatisticsView, cars: Seq<Car>, now: int, n: int) -> StatisticsView
    decreases n,
{
    if n <= 0 {
        s
    } else {
        let d = direction_of(n - 1);
        record_done(
            record_done(
                record_done(reaped(s, cars, now, n - 1), lane_of(cars, d, Turning::Left), now),
                lane_of(cars, d, Turning::Straight),
                now,
            ),
            lane_of(cars, d, Turning::Right),
            now,
        )
    }
}

proof fn lemma_direction_road(d: Direction)
    ensures
        direction_of(road_of(d)) == d,
        0 <= road_of(d) < 4,
{
}

/// Spawning from `d` must succeed: identifiers are left, some lane of `d` admits a
/// vehicle, and no vehicle moves toward the entry sector of any admitting lane's path.
pub open spec fn spawn_owed(roads: Seq<Route>, next_id: usize, d: Direction) -> bool {
    &&& next_id < usize::MAX
    &&& roads[road_of(d)].open_turns().len() > 0
    &&& forall|t: Turning|
        lane_open(roads[road_of(d)].lane(t)) ==> !#[trigger] claimed_in(roads, path_sectors(d, t)[0])
}

/// Route `after` is `before` with a new vehicle appended to lane `t`: identifier `id`,
/// entering from `d` at tick `now`, at the start of its path with the initial velocity.
pub open spec fn spawned_on(before: Route, after: Route, t: Turning, d: Direction, id: usize, now: u64) -> bool {
    let c = after.lane(t).last();
    &&& after.lane(t) == before.lane(t).push(c)
    &&& forall|u: Turning| u != t ==> #[trigger] after.lane(u) == before.lane(u)
    &&& c.id == id && c.direction == d && c.turning == t && c.spawned_at == now
    &&& c.index == 0 && c.vel == INITIAL_VELOCITY
    &&& c.path.sectors@ == path_sectors(d, t)
    &&& (c.x, c.y) == entry_coords(path_sectors(d, t)[0], d)
}

/// Some vehicle of the routes moves toward sector `s`.
pub open spec fn claimed_in(roads: Seq<Route>, s: Sector) -> bool {
    exists|x: Car| #[trigger] in_roads(roads, x) && x.target().same_cell(s)
}

/// Routes whose lanes are all empty hold no vehicle.
proof fn lemma_empty_roads_in_nothing(roads: Seq<Route>, post: Seq<Car>)
    requires
        roads.len() == 4,
        forall|j: int, t: Turning| 0 <= j < 4 ==> (#[trigger] roads[j].lane(t)).len() == 0,
    ensures
        forall|c: Car| #[trigger] in_roads(roads, c) ==> post.contains(c),
{
    assert forall|c: Car| #[trigger] in_roads(roads, c) implies post.contains(c) by {
        let (r, t) = choose|r: int, t: Turning| 0 <= r < roads.len() && #[trigger] roads[r].lane(t).contains(c);
        assert(roads[r].lane(t).len() == 0);
    }
}

/// After taking the cars of route `r`, every vehicle taken so far is in the routes.
proof fn lemma_taken_in_roads(orig: Seq<Route>, r: int, acc: Seq<Car>, all: Seq<Car>)
    requires
        0 <= r < orig.len(),
        forall|k: int| 0 <= k < acc.len() ==> in_roads(orig, #[trigger] acc[k]),
        all == acc + orig[r].left@ + orig[r].straight@ + orig[r].right@,
    ensures
        forall|k: int| 0 <= k < all.len() ==> in_roads(orig, #[trigger] all[k]),
{
    let o = orig[r];
    let a = acc.len();
    let l = o.left@.len();
    let m = o.straight@.len();
    assert forall|k: int| 0 <= k < all.len() implies in_roads(orig, #[trigger] all[k]) by {
        let x = all[k];
        if k < a {
            assert(x == acc[k]);
        } else if k < a + l {
            assert(x == o.left@[k - a]);
            assert(o.lane(Turning::Left).contains(x));
        } else if k < a + l + m {
            assert(x == o.straight@[k - a - l]);
            assert(o.lane(Turning::Straight).contains(x));
        } else {
            assert(x == o.right@[k - a - l - m]);
            assert(o.lane(Turning::Right).contains(x));
        }
    }
}

/// Adding a vehicle whose target no vehicle of the routes moves toward keeps claims apart.
proof fn lemma_add_keeps_claims_apart(roads: Seq<Route>, i: int, route: Route, car: Car)
    requires
        roads_claims_apart(roads),
        0 <= i < roads.len(),
        car.index == 0,
        !claimed_in(roads, car.path.sectors@[0]),
        forall|t: Turning|
            #[trigger] route.lane(t) == if t == car.turning {
                roads[i].lane(t).push(car)
            } else {
                roads[i].lane(t)
            },
    ensures
        roads_claims_apart(roads.update(i, route)),
{
    let u = roads.update(i, route);
    assert forall|c: Car| #[trigger] in_roads(u, c) implies in_roads(roads, c) || c == car by {
        lemma_in_roads_update(roads, i, route, c);
        if !in_roads(roads, c) {
            let t = choose|t: Turning| #[trigger] route.lane(t).contains(c);
            let q = choose|q: int| 0 <= q < route.lane(t).len() && route.lane(t)[q] == c;
            if c != car {
                assert(q < roads[i].lane(t).len());
                assert(roads[i].lane(t)[q] == c);
                assert(roads[i].lane(t).contains(c));
            }
        }
    }
    assert forall|a: Car, b: Car|
        #[trigger] in_roads(u, a) && #[trigger] in_roads(u, b) && a.id != b.id implies !a.target().same_cell(
        b.target(),
    ) by {
        if a == car && b != car {
            assert(in_roads(roads, b));
        } else if b == car && a != car {
            assert(in_roads(roads, a));
        }
    }
}

fn road_index(d: Direction) -> (r: usize)
    ensures
        r == road_of(d),
{
    match d {
        Direction::North => 0,
        Direction::East => 1,
        Direction::South => 2,
        Direction::West => 3,
    }
}

fn direction_from_draw(n: u32) -> (r: Direction)
    ensures
        r == direction_of(n as int),
{
    match n {
        0 => Direction::North,
        1 => Direction::East,
        2 => Direction::South,
        _ => Direction::West,
    }
}

} // verus!
