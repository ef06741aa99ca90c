//! Lane admission control: the vehicles of one entry direction, grouped by turn.
use crate::car::{all_wf, Car};
use crate::path::{Direction, Sector, Turning};
use crate::random::choose_turning;
use crate::statistics::{average_step, max_step, min_step, Statistics, StatisticsView};
use vstd::prelude::*;

verus! {

/// The vehicles entering from one direction, one lane per turn, each lane in spawn order.
#[derive(Debug)]
pub struct Route {
    pub direction: Direction,
    pub left: Vec<Car>,
    pub straight: Vec<Car>,
    pub right: Vec<Car>,
}

/// A lane admits a new vehicle when it is empty or when its most recently admitted
/// vehicle has passed the first two sectors of its path.
pub open spec fn lane_open(lane: Seq<Car>) -> bool {
    lane.len() == 0 || lane.last().index > 2
}

/// An empty lane admits a new vehicle; a lane whose only vehicle has not passed the
/// first two sectors of its path does not.
pub proof fn lemma_lane_admission(lane: Seq<Car>)
    ensures
        lane.len() == 0 ==> lane_open(lane),
        lane.len() == 1 && lane[0].index <= 2 ==> !lane_open(lane),
{
}

/// The transit time of a vehicle that leaves at tick `now`.
pub open spec fn transit(c: Car, now: int) -> int {
    if now >= c.spawned_at {
        now - c.spawned_at
    } else {
        0
    }
}

/// The statistics after recording a transit time.
pub open spec fn with_time(s: StatisticsView, t: int) -> StatisticsView {
    StatisticsView {
        min_time: min_step(s.min_time, t),
        max_time: max_step(s.max_time, t),
        average_time: average_step(s.average_time, s.close_calls + s.collisions, t),
        ..s
    }
}

/// The vehicles of `lane` that have not left the simulated area, in order.
pub open spec fn still_running(lane: Seq<Car>) -> Seq<Car>
    decreases lane.len(),
{
    if lane.len() == 0 {
        seq![]
    } else if lane.last().done() {
        still_running(lane.drop_last())
    } else {
        still_running(lane.drop_last()).push(lane.last())
    }
}

/// The statistics after recording, in order, the transit times of the vehicles of
/// `lane` that have left the simulated area.
pub open spec fn record_done(s: StatisticsView, lane: Seq<Car>, now: int) -> StatisticsView
    decreases lane.len(),
{
    if lane.len() == 0 {
        s
    } else if lane.last().done() {
        with_time(record_done(s, lane.drop_last(), now), transit(lane.last(), now))
    } else {
        record_done(s, lane.drop_last(), now)
    }
}

/// Every vehicle of `lane` is well formed, enters from `d` and turns `t`.
pub open spec fn lane_wf(lane: Seq<Car>, d: Direction, t: Turning) -> bool {
    forall|i: int|
        0 <= i < lane.len() ==> #[trigger] lane[i].wf() && lane[i].direction == d && lane[i].turning == t
}

impl Route {
    pub open spec fn wf(&self) -> bool {
        &&& lane_wf(self.left@, self.direction, Turning::Left)
        &&& lane_wf(self.straight@, self.direction, Turning::Straight)
        &&& lane_wf(self.right@, self.direction, Turning::Right)
    }

    /// The lane of the vehicles that turn `t`.
    pub open spec fn lane(&self, t: Turning) -> Seq<Car> {
        match t {
            Turning::Left => self.left@,
            Turning::Straight => self.straight@,
            Turning::Right => self.right@,
        }
    }

    /// The turns whose lanes admit a new vehicle, in the order left, straight, right.
    pub open spec fn open_turns(&self) -> Seq<Turning> {
        (if lane_open(self.left@) {
            seq![Turning::Left]
        } else {
            seq![]
        }) + (if lane_open(self.straight@) {
            seq![Turning::Straight]
        } else {
            seq![]
        }) + (if lane_open(self.right@) {
            seq![Turning::Right]
        } else {
            seq![]
        })
    }

    pub fn new(direction: Direction) -> (r: Route)
        ensures
            r.wf(),
            r.direction == direction,
            r.left@.len() == 0,
            r.straight@.len() == 0,
            r.right@.len() == 0,
    {
        Route { direction, left: Vec::new(), straight: Vec::new(), right: Vec::new() }
    }

    /// Appends the vehicle to the lane of its turn.
    pub fn add_car(&mut self, car: Car)
        requires
            old(self).wf(),
            car.wf(),
            car.direction == old(self).direction,
        ensures
            final(self).wf(),
            final(self).direction == old(self).direction,
            forall|t: Turning|
                #[trigger] final(self).lane(t) == if t == car.turning {
                    old(self).lane(t).push(car)
                } else {
                    old(self).lane(t)
                },
    {
        match car.turning {
            Turning::Left => self.left.push(car),
            Turning::Straight => self.straight.push(car),
            Turning::Right => self.right.push(car),
        }
        proof {
            lemma_lane_push(old(self).lane(car.turning), car, car.direction, car.turning);
        }
    }

    /// Picks at random one of the turns whose lane admits a new vehicle, if any does.
    pub fn get_available_path(&self) -> (r: Option<Turning>)
        ensures
            r is None <==> self.open_turns().len() == 0,
            r matches Some(t) ==> lane_open(self.lane(t)),
    {
        let paths = self.available_paths();
        let r = choose_turning(paths);
        proof {
            if let Some(t) = r {
                let k = choose|k: int| 0 <= k < self.open_turns().len() && self.open_turns()[k] == t;
                assert(self.open_turns()[k] == t);
                match t {
                    Turning::Left => {},
                    Turning::Straight => {},
                    Turning::Right => {},
                }
            }
        }
        r
    }

    /// The turns whose lanes admit a new vehicle, in the order left, straight, right.
    pub fn available_paths(&self) -> (r: Vec<Turning>)
        ensures
            r@ == self.open_turns(),
    {
        let lanes = self.available_lanes();
        let mut paths: Vec<Turning> = Vec::new();
        if lanes[0] {
            paths.push(Turning::Left);
        }
        if lanes[1] {
            paths.push(Turning::Straight);
        }
        if lanes[2] {
            paths.push(Turning::Right);
        }
        assert(paths@ =~= self.open_turns());
        paths
    }

    /// For each lane, in the order left, straight, right, whether it admits a new vehicle.
    pub fn available_lanes(&self) -> (r: [bool; 3])
        ensures
            r@ == seq![lane_open(self.left@), lane_open(self.straight@), lane_open(self.right@)],
    {
        let r = [lane_available(&self.left), lane_available(&self.straight), lane_available(&self.right)];
        assert(r@ =~= seq![lane_open(self.left@), lane_open(self.straight@), lane_open(self.right@)]);
        r
    }

    /// Reports the transit time of every vehicle that has left the simulated area, then
    /// removes those vehicles from their lanes.
    pub fn cleanup_cars(&mut self, stats: &mut Statistics, now: u64)
        requires
            old(self).wf(),
        ensures
            final(self).wf(),
            final(self).direction == old(self).direction,
            final(self).left@ == still_running(old(self).left@),
            final(self).straight@ == still_running(old(self).straight@),
            final(self).right@ == still_running(old(self).right@),
            final(stats)@ == record_done(
                record_done(record_done(old(stats)@, old(self).left@, now as int), old(self).straight@, now as int),
                old(self).right@,
                now as int,
            ),
    {
        cleanup_lane(&mut self.left, stats, now, self.direction, Turning::Left);
        cleanup_lane(&mut self.straight, stats, now, self.direction, Turning::Straight);
        cleanup_lane(&mut self.right, stats, now, self.direction, Turning::Right);
    }

    /// Whether some vehicle of the route moves toward sector `s`.
    pub fn claims(&self, s: Sector) -> (r: bool)
        requires
            self.wf(),
        ensures
            r == exists|t: Turning, k: int|
                0 <= k < self.lane(t).len() && #[trigger] self.lane(t)[k].target().same_cell(s),
    {
        let a = lane_claims(&self.left, s, Turning::Left, self.direction);
        let b = lane_claims(&self.straight, s, Turning::Straight, self.direction);
        let c = lane_claims(&self.right, s, Turning::Right, self.direction);
        proof {
            if a {
                let k = choose|k: int| 0 <= k < self.left@.len() && self.left@[k].target().same_cell(s);
                assert(self.lane(Turning::Left)[k].target().same_cell(s));
            }
            if b {
                let k = choose|k: int| 0 <= k < self.straight@.len() && self.straight@[k].target().same_cell(s);
                assert(self.lane(Turning::Straight)[k].target().same_cell(s));
            }
            if c {
                let k = choose|k: int| 0 <= k < self.right@.len() && self.right@[k].target().same_cell(s);
                assert(self.lane(Turning::Right)[k].target().same_cell(s));
            }
            if exists|t: Turning, k: int| 0 <= k < self.lane(t).len() && #[trigger] self.lane(t)[k].target().same_cell(s) {
                let (t, k) = choose|t: Turning, k: int|
                    0 <= k < self.lane(t).len() && #[trigger] self.lane(t)[k].target().same_cell(s);
                match t {
                    Turning::Left => assert(self.left@[k].target().same_cell(s)),
                    Turning::Straight => assert(self.straight@[k].target().same_cell(s)),
                    Turning::Right => assert(self.right@[k].target().same_cell(s)),
                }
            }
        }
        a || b || c
    }

    /// Moves every vehicle out of the route, lane after lane, leaving the lanes empty.
    pub fn take_cars(&mut self, out: &mut Vec<Car>)
        requires
            old(self).wf(),
        ensures
            final(self).wf(),
            final(self).direction == old(self).direction,
            final(self).left@.len() == 0,
            final(self).straight@.len() == 0,
            final(self).right@.len() == 0,
            final(out)@ == old(out)@ + old(self).left@ + old(self).straight@ + old(self).right@,
    {
        out.append(&mut self.left);
        out.append(&mut self.straight);
        out.append(&mut self.right);
    }
}

proof fn lemma_lane_push(lane: Seq<Car>, car: Car, d: Direction, t: Turning)
    requires
        lane_wf(lane, d, t),
        car.wf(),
        car.direction == d,
        car.turning == t,
    ensures
        lane_wf(lane.push(car), d, t),
{
    let l2 = lane.push(car);
    assert forall|i: int| 0 <= i < l2.len() implies #[trigger] l2[i].wf() && l2[i].direction == d
        && l2[i].turning == t by {
        if i < lane.len() {
            assert(l2[i] == lane[i]);
            assert(lane[i].wf());
        } else {
            assert(l2[i] == car);
        }
    }
}

/// Appending the lanes of a well-formed route to well-formed vehicles keeps them well formed.
pub proof fn lemma_route_cars_wf(acc: Seq<Car>, route: Route)
    requires
        all_wf(acc),
        route.wf(),
    ensures
        all_wf(acc + route.left@ + route.straight@ + route.right@),
{
    lemma_append_lane_wf(acc, route.left@, route.direction, Turning::Left);
    lemma_append_lane_wf(acc + route.left@, route.straight@, route.direction, Turning::Straight);
    lemma_append_lane_wf(acc + route.left@ + route.straight@, route.right@, route.direction, Turning::Right);
}

proof fn lemma_append_lane_wf(acc: Seq<Car>, lane: Seq<Car>, d: Direction, t: Turning)
    requires
        all_wf(acc),
        lane_wf(lane, d, t),
    ensures
        all_wf(acc + lane),
{
    assert forall|i: int| 0 <= i < (acc + lane).len() implies #[trigger] (acc + lane)[i].wf() by {
        if i < acc.len() {
            assert(acc[i].wf());
        } else {
            assert(lane[i - acc.len()].wf());
        }
    }
}

fn lane_claims(lane: &Vec<Car>, s: Sector, t: Turning, d: Direction) -> (r: bool)
    requires
        lane_wf(lane@, d, t),
    ensures
        r == exists|k: int| 0 <= k < lane@.len() && #[trigger] lane@[k].target().same_cell(s),
{
    let mut i: usize = 0;
    while i < lane.len()
        invariant
            i <= lane@.len(),
            lane_wf(lane@, d, t),
            forall|k: int| 0 <= k < i ==> !(#[trigger] lane@[k].target()).same_cell(s),
        decreases lane@.len() - i,
    {
        assert(lane@[i as int].wf());
        if lane[i].path.sectors[lane[i].index] == s {
            assert(lane@[i as int].target().same_cell(s));
            return true;
        }
        i = i + 1;
    }
    false
}

/// The vehicles still running in a lane were all in it.
pub proof fn lemma_still_running_within(lane: Seq<Car>, c: Car)
    requires
        still_running(lane).contains(c),
    ensures
        lane.contains(c),
    decreases lane.len(),
{
    if lane.len() > 0 {
        let p = lane.drop_last();
        if still_running(p).contains(c) {
            lemma_still_running_within(p, c);
            let k = choose|k: int| 0 <= k < p.len() && p[k] == c;
            assert(lane[k] == c);
        } else {
            assert(!lane.last().done());
            let sr = still_running(p).push(lane.last());
            let k = choose|k: int| 0 <= k < sr.len() && sr[k] == c;
            assert(k == sr.len() - 1);
            assert(lane[lane.len() - 1] == c);
        }
    }
}

fn lane_available(lane: &Vec<Car>) -> (r: bool)
    ensures
        r == lane_open(lane@),
{
    if lane.len() == 0 {
        true
    } else {
        lane[lane.len() - 1].index > 2
    }
}

fn cleanup_lane(lane: &mut Vec<Car>, stats: &mut Statistics, now: u64, d: Direction, t: Turning)
    requires
        lane_wf(old(lane)@, d, t),
    ensures
        lane_wf(final(lane)@, d, t),
        final(lane)@ == still_running(old(lane)@),
        final(stats)@ == record_done(old(stats)@, old(lane)@, now as int),
{
    let mut rest: Vec<Car> = Vec::new();
    std::mem::swap(lane, &mut rest);
    let ghost all = rest@;
    let ghost s0 = stats@;
    let n = rest.len();
    let mut kept: Vec<Car> = Vec::new();
    let mut i: usize = 0;
    while rest.len() > 0
        invariant
            lane_wf(all, d, t),
            i + rest@.len() == all.len(),
            all.len() == n,
            rest@ == all.subrange(i as int, all.len() as int),
            kept@ == still_running(all.take(i as int)),
            stats@ == record_done(s0, all.take(i as int), now as int),
            lane_wf(kept@, d, t),
        decreases rest@.len(),
    {
        let car = rest.remove(0);
        assert(car == all[i as int]);
        assert(all.take(i as int + 1).drop_last() =~= all.take(i as int));
        assert(all.take(i as int + 1).last() == all[i as int]);
        assert(all[i as int].wf());
        if car.is_done() {
            car.add_time(stats, now);
        } else {
            proof {
                lemma_lane_push(kept@, car, d, t);
            }
            kept.push(car);
        }
        assert(rest@ =~= all.subrange(i as int + 1, all.len() as int));
        i = i + 1;
    }
    assert(all.take(i as int) =~= all);
    std::mem::swap(lane, &mut kept);
}

} // verus!
