//! The vehicle agent: its kinematic state and the per-tick movement along its path.
use crate::config::{
    ACCELERATION_DISTANCE, CLOSE_CALL_DISTANCE, FPS, INITIAL_VELOCITY, POSITION_LIMIT, SCAN_DISTANCE, SECTOR_WIDTH,
    SPEED_LIMIT, STOP_VELOCITY, VELOCITY_UNIT, WINDOW_SIZE,
};
use crate::path::{gap, in_grid, lemma_path_shape, path_sectors, Direction, Moving, Path, Sector, Turning};
use crate::collision::{braked_by, forward_scanned, passing_checked, proximity_recorded, with_vel, Scan};
use crate::random::random_below;
use crate::statistics::{min_step, max_step, average_step, Statistics, StatisticsView};
use vstd::prelude::*;

verus! {

/// Cosmetic look of a vehicle; it never influences the simulation.
#[derive(Clone, Copy, Debug, PartialEq, Eq, Structural)]
pub enum Model {
    Standard,
    Sport,
    TaxiVert,
    TaxiOrange,
    TaxiNoire,
    TaxiBleu,
    TaxiRouge,
}

impl Model {
    /// The look picked by a draw in `0..9`: six looks have one chance in nine each,
    /// the standard one takes the rest.
    pub fn from_draw(n: u32) -> (r: Model)
        ensures
            r == model_of(n as int),
    {
        match n {
            0 => Model::TaxiVert,
            1 => Model::Sport,
            2 => Model::TaxiNoire,
            3 => Model::TaxiRouge,
            4 => Model::TaxiBleu,
            5 => Model::TaxiOrange,
            _ => Model::Standard,
        }
    }
}

pub open spec fn model_of(n: int) -> Model {
    if n == 0 {
        Model::TaxiVert
    } else if n == 1 {
        Model::Sport
    } else if n == 2 {
        Model::TaxiNoire
    } else if n == 3 {
        Model::TaxiRouge
    } else if n == 4 {
        Model::TaxiBleu
    } else if n == 5 {
        Model::TaxiOrange
    } else {
        Model::Standard
    }
}

/// The square footprint of a vehicle.
#[derive(Clone, Copy, Debug, PartialEq, Eq, Structural)]
pub struct Borders {
    pub top: i64,
    pub right: i64,
    pub left: i64,
    pub bottom: i64,
}

/// A vehicle crossing the intersection. `index` designates the sector of its path it is
/// moving toward; `vel` is its velocity in thousandths of the unit velocity.
#[derive(Clone, Debug)]
pub struct Car {
    pub x: i64,
    pub y: i64,
    pub index: usize,
    pub moving: Moving,
    pub vel: u64,
    pub turning: Turning,
    pub path: Path,
    pub direction: Direction,
    pub id: usize,
    pub spawned_at: u64,
    pub model: Model,
}

impl PartialEq for Car {
    fn eq(&self, other: &Car) -> (r: bool)
        ensures
            r == (self.id == other.id),
    {
        self.id == other.id
    }
}

impl vstd::std_specs::cmp::PartialEqSpecImpl for Car {
    open spec fn obeys_eq_spec() -> bool {
        true
    }

    open spec fn eq_spec(&self, other: &Car) -> bool {
        self.id == other.id
    }
}

/// Distance covered in one tick at velocity `vel`, scaled by `percent`.
pub open spec fn travel(vel: int, percent: int) -> int {
    vel * SECTOR_WIDTH * SPEED_LIMIT * percent / (VELOCITY_UNIT * VELOCITY_UNIT * FPS * 100)
}

/// Velocity after accelerating with `distance` of free road ahead.
pub open spec fn accelerated(vel: int, distance: int) -> int {
    if vel < SPEED_LIMIT {
        vel + (SPEED_LIMIT - vel) * (if distance >= SCAN_DISTANCE {
            SCAN_DISTANCE as int
        } else {
            distance
        }) / (FPS * SCAN_DISTANCE) as int
    } else {
        vel
    }
}

/// Velocity after braking for an obstacle `distance` away: the velocity is lowered to
/// the share of the scan distance that is free, never raised, and a velocity under the
/// stopping threshold becomes zero.
pub open spec fn braked(vel: int, distance: int) -> int {
    let target = distance * VELOCITY_UNIT / SCAN_DISTANCE as int;
    if target > vel {
        vel
    } else if target < STOP_VELOCITY {
        0
    } else {
        target
    }
}

/// Movement damping by the number of neighbours: 105 % alone, 100 % with one, 90 % with more.
pub open spec fn crowd_percent(n: nat) -> int {
    if n == 0 {
        105
    } else if n == 1 {
        100
    } else {
        90
    }
}

pub open spec fn clamp(v: int) -> int {
    if v < -POSITION_LIMIT {
        -POSITION_LIMIT as int
    } else if v > POSITION_LIMIT {
        POSITION_LIMIT as int
    } else {
        v
    }
}

/// Distance between two vehicles: the larger gap along the two axes, so that two
/// footprints of one sector's width overlap exactly when it is below that width.
pub open spec fn distance(a: Car, b: Car) -> int {
    let dx = gap(a.x as int, b.x as int);
    let dy = gap(a.y as int, b.y as int);
    if dx > dy {
        dx
    } else {
        dy
    }
}

/// Some vehicle of `cars` is moving toward sector `s`.
pub open spec fn claimed(cars: Seq<Car>, s: Sector) -> bool {
    exists|i: int| 0 <= i < cars.len() && #[trigger] cars[i].target().same_cell(s)
}

/// No two vehicles of `cars` with different identities move toward the same sector.
pub open spec fn claims_apart(cars: Seq<Car>) -> bool {
    forall|i: int, j: int|
        0 <= i < cars.len() && 0 <= j < cars.len() && cars[i].id != cars[j].id ==> !(#[trigger] cars[i].target()).same_cell(
            #[trigger] cars[j].target(),
        )
}

/// Advancing keeps claims apart: when no two vehicles move toward the same sector and
/// the one at `k` is replaced by its state after a tick in which it saw all the others,
/// either keeping its target or advancing onto a sector none of them moves toward, still
/// no two vehicles move toward the same sector.
pub proof fn lemma_advance_keeps_claims_apart(cars: Seq<Car>, k: int, after: Car)
    requires
        claims_apart(cars),
        0 <= k < cars.len(),
        after.id == cars[k].id,
        after.path == cars[k].path,
        after.index == cars[k].index || !claimed(cars.remove(k), after.target()),
    ensures
        claims_apart(cars.update(k, after)),
{
    let u = cars.update(k, after);
    let others = cars.remove(k);
    assert forall|i: int, j: int|
        0 <= i < u.len() && 0 <= j < u.len() && u[i].id != u[j].id implies !(#[trigger] u[i].target()).same_cell(
        #[trigger] u[j].target(),
    ) by {
        if i != k && j != k {
            assert(u[i] == cars[i] && u[j] == cars[j]);
            assert(!cars[i].target().same_cell(cars[j].target()));
        } else {
            let m = if i == k {
                j
            } else {
                i
            };
            assert(m != k);
            assert(u[m] == cars[m]);
            if after.index == cars[k].index {
                assert(after.target() == cars[k].target());
                assert(!cars[k].target().same_cell(cars[m].target()));
                assert(!cars[m].target().same_cell(cars[k].target()));
            } else {
                let p = if m < k {
                    m
                } else {
                    m - 1
                };
                assert(others[p] == cars[m]);
                assert(!others[p].target().same_cell(after.target()));
            }
        }
    }
}

/// Every vehicle of `cars` is well formed.
pub open spec fn all_wf(cars: Seq<Car>) -> bool {
    forall|i: int| 0 <= i < cars.len() ==> #[trigger] cars[i].wf()
}

pub proof fn lemma_all_wf_remove(cars: Seq<Car>, k: int)
    requires
        all_wf(cars),
        0 <= k < cars.len(),
    ensures
        all_wf(cars.remove(k)),
        cars[k].wf(),
{
    assert forall|i: int| 0 <= i < cars.remove(k).len() implies #[trigger] cars.remove(k)[i].wf() by {
        if i < k {
            assert(cars[i].wf());
        } else {
            assert(cars[i + 1].wf());
        }
    }
}

pub proof fn lemma_all_wf_insert(cars: Seq<Car>, k: int, c: Car)
    requires
        all_wf(cars),
        0 <= k <= cars.len(),
        c.wf(),
    ensures
        all_wf(cars.insert(k, c)),
{
    assert forall|i: int| 0 <= i < cars.insert(k, c).len() implies #[trigger] cars.insert(k, c)[i].wf() by {
        if i < k {
            assert(cars[i].wf());
        } else if i > k {
            assert(cars[i - 1].wf());
        }
    }
}

/// Number of vehicles of `cars`, other than `me`, at a distance in `lo..hi` from it.
pub open spec fn count_within(me: Car, cars: Seq<Car>, lo: int, hi: int) -> nat
    decreases cars.len(),
{
    if cars.len() == 0 {
        0
    } else {
        let c = cars.last();
        count_within(me, cars.drop_last(), lo, hi) + if c.id != me.id && lo <= distance(me, c) < hi {
            1nat
        } else {
            0nat
        }
    }
}

/// Pixel coordinate of a grid line.
pub open spec fn grid_pos(c: int) -> int {
    c * SECTOR_WIDTH
}

/// After the advance step: moved on to the next sector when it reaches the corner of its
/// target and no vehicle of `cars` moves toward the next sector, stopped when one does,
/// unchanged otherwise (and always on the last sector of its path).
pub open spec fn gated(o: Car, cars: Seq<Car>) -> Car {
    if o.index + 2 <= o.path.sectors@.len() && o.reaches_target() {
        if claimed(cars, o.path.sectors@[o.index + 1]) {
            Car { vel: 0, ..o }
        } else {
            Car { index: (o.index + 1) as usize, ..o }
        }
    } else {
        o
    }
}

/// The vehicle heading as its target sector says.
pub open spec fn synced(c: Car) -> Car {
    Car { moving: c.target().moving, ..c }
}

/// The vehicle after moving one tick, damped by the neighbours of `cars`.
pub open spec fn crowd_moved(c: Car, cars: Seq<Car>) -> Car {
    c.moved(travel(c.vel as int, crowd_percent(count_within(c, cars, 0, ACCELERATION_DISTANCE as int))))
}

/// The vehicle with its off-axis coordinate put on the grid line of its target sector
/// when the path bends there.
pub open spec fn adjusted(o: Car) -> Car {
    let s = o.target();
    let p = o.path.sectors@[o.index - 1];
    let o1 = if s.sx() != p.sx() {
        Car { y: grid_pos(s.sy()) as i64, ..o }
    } else {
        o
    };
    if s.sy() != p.sy() {
        Car { x: grid_pos(s.sx()) as i64, ..o1 }
    } else {
        o1
    }
}

/// The velocity policy of one tick, applied to a vehicle that has moved.
pub open spec fn regulated(c: Car, cars: Seq<Car>) -> Car {
    if c.turning == Turning::Right {
        with_vel(c, accelerated(c.vel as int, SCAN_DISTANCE as int))
    } else if c.index < 2 {
        c
    } else {
        let c1 = if c.turning == Turning::Straight && 3 <= c.index <= 7 {
            braked_by(c, cars, Scan::NextSector)
        } else {
            c
        };
        let c2 = if c1.index == 3 && c1.progress() > CLOSE_CALL_DISTANCE {
            passing_checked(c1, cars)
        } else {
            c1
        };
        let c3 = if c2.turning == Turning::Left && 5 <= c2.index <= 7 {
            braked_by(c2, cars, Scan::Center)
        } else {
            c2
        };
        if c3.index >= 8 {
            forward_scanned(c3, cars)
        } else {
            forward_scanned(braked_by(adjusted(c3), cars, Scan::Cone), cars)
        }
    }
}

/// The vehicle after the advance step, the heading update and the move of one tick.
pub open spec fn advanced(o: Car, cars: Seq<Car>) -> Car {
    crowd_moved(synced(gated(o, cars)), cars)
}

/// The vehicle after one tick among the vehicles `cars`.
pub open spec fn ticked(o: Car, cars: Seq<Car>) -> Car {
    regulated(advanced(o, cars), cars)
}

/// The vehicle runs scans this tick: it does not turn right and has left the entry.
pub open spec fn scanning(c: Car) -> bool {
    c.turning != Turning::Right && c.index >= 2
}

/// The statistics after the tick of `o` among `cars`: a vehicle that runs scans reports
/// the vehicles near it once it has moved; any other vehicle reports nothing.
pub open spec fn tick_reported(s: StatisticsView, o: Car, cars: Seq<Car>) -> StatisticsView {
    if scanning(advanced(o, cars)) {
        proximity_recorded(s, advanced(o, cars), cars)
    } else {
        s
    }
}

impl Car {
    pub open spec fn wf(self) -> bool {
        &&& self.path.sectors@ == path_sectors(self.direction, self.turning)
        &&& self.index < self.path.sectors@.len()
        &&& self.vel <= SPEED_LIMIT
        &&& -POSITION_LIMIT <= self.x <= POSITION_LIMIT
        &&& -POSITION_LIMIT <= self.y <= POSITION_LIMIT
    }

    /// The sector the vehicle is moving toward.
    pub open spec fn target(self) -> Sector {
        self.path.sectors@[self.index as int]
    }

    /// The vehicle reaches the corner of its target sector within one tick.
    pub open spec fn reaches_target(self) -> bool {
        let s = self.target();
        let step = travel(self.vel as int, 100);
        match self.moving {
            Moving::Up => self.y - step <= grid_pos(s.sy()),
            Moving::Right => self.x + step >= grid_pos(s.sx()),
            Moving::Down => self.y + step >= grid_pos(s.sy()),
            Moving::Left => self.x - step <= grid_pos(s.sx()),
        }
    }

    /// The vehicle as moved by `d` along its heading.
    pub open spec fn moved(self, d: int) -> Car {
        match self.moving {
            Moving::Up => Car { y: clamp(self.y - d) as i64, ..self },
            Moving::Right => Car { x: clamp(self.x + d) as i64, ..self },
            Moving::Down => Car { y: clamp(self.y + d) as i64, ..self },
            Moving::Left => Car { x: clamp(self.x - d) as i64, ..self },
        }
    }

    /// How far the vehicle has come into the sector ahead of its target corner.
    pub open spec fn progress(self) -> int {
        let s = self.target();
        match self.moving {
            Moving::Up => SECTOR_WIDTH - (self.y - grid_pos(s.sy())),
            Moving::Right => SECTOR_WIDTH - (grid_pos(s.sx()) - self.x),
            Moving::Down => SECTOR_WIDTH - (grid_pos(s.sy()) - self.y),
            Moving::Left => SECTOR_WIDTH - (self.x - grid_pos(s.sx())),
        }
    }

    pub open spec fn footprint(self) -> Borders {
        Borders {
            top: self.y,
            right: (self.x + SECTOR_WIDTH) as i64,
            bottom: (self.y + SECTOR_WIDTH) as i64,
            left: self.x,
        }
    }

    /// The footprint has left the simulated area in the direction of travel.
    pub open spec fn done(self) -> bool {
        match self.moving {
            Moving::Up => self.y + SECTOR_WIDTH <= 0,
            Moving::Right => self.x >= WINDOW_SIZE,
            Moving::Down => self.y >= WINDOW_SIZE,
            Moving::Left => self.x + SECTOR_WIDTH <= 0,
        }
    }

    pub proof fn lemma_wf_path(self)
        requires
            self.wf(),
        ensures
            self.path.sectors@.len() >= 2,
            forall|i: int|
                0 <= i < self.path.sectors@.len() ==> #[trigger] in_grid(
                    self.path.sectors@[i].sx(),
                    self.path.sectors@[i].sy(),
                ),
            in_grid(self.target().sx(), self.target().sy()),
    {
        lemma_path_shape(self.direction, self.turning);
    }

    /// A vehicle entering from `direction` and turning `turning`, one sector before the
    /// entry sector of its path, at the initial velocity, spawned at tick `now`.
    pub fn new(direction: Direction, turning: Turning, id: usize, now: u64) -> (r: Car)
        ensures
            r.wf(),
            r.index == 0,
            r.vel == INITIAL_VELOCITY,
            r.id == id,
            r.direction == direction,
            r.turning == turning,
            r.spawned_at == now,
            r.moving == path_sectors(direction, turning)[0].moving,
            (r.x, r.y) == entry_coords(path_sectors(direction, turning)[0], direction),
    {
        let path = Path::new(&direction, &turning);
        proof {
            lemma_path_shape(direction, turning);
            assert(in_grid(path.sectors@[0].sx(), path.sectors@[0].sy()));
        }
        let (x, y) = get_entry_coords(&path.sectors[0], &direction);
        let moving = path.sectors[0].moving;
        let model = Model::from_draw(random_below(9));
        Car {
            x,
            y,
            index: 0,
            moving,
            vel: INITIAL_VELOCITY,
            id,
            turning,
            path,
            direction,
            spawned_at: now,
            model,
        }
    }

    /// One tick of the vehicle: advance along the path when the next sector is free, take the
    /// heading of the target sector, move; then, unless it turns right or is still entering,
    /// report close calls and collisions; finally let the scans that fit its turn and its
    /// progress regulate the velocity.
    pub fn move_car(&mut self, all_cars: &[Car], stats: &mut Statistics)
        requires
            old(self).wf(),
            all_wf(all_cars@),
        ensures
            ({
                let o = *old(self);
                let f = *final(self);
                let advance = o.index + 2 <= o.path.sectors@.len() && o.reaches_target() && !claimed(
                    all_cars@,
                    o.path.sectors@[o.index + 1],
                );
                &&& f.wf()
                &&& f.path == o.path && f.direction == o.direction && f.turning == o.turning
                &&& f.id == o.id && f.spawned_at == o.spawned_at && f.model == o.model
                &&& f.index == if advance {
                    o.index + 1
                } else {
                    o.index as int
                }
                &&& advance ==> !claimed(all_cars@, f.target())
                &&& f.moving == f.target().moving
                &&& f.vel <= SPEED_LIMIT
            }),
            *final(self) == ticked(*old(self), all_cars@),
            final(stats)@ == tick_reported(old(stats)@, *old(self), all_cars@),
    {
        self.move_in_path(all_cars);
        proof {
            self.lemma_wf_path();
        }
        self.moving = self.path.sectors[self.index].moving;
        self.change_pos(all_cars);
        if self.turning != Turning::Right && self.index >= 2 {
            self.record_proximity(all_cars, stats);
        }
        self.regulate(all_cars);
    }

    /// The velocity policy of one tick, after the vehicle has moved: right turns only
    /// accelerate; past the entry, straight crossings watch the sector ahead, the vehicle
    /// at the merge index settles priority, left turns scan the center; past the exit
    /// threshold only the forward scan runs; otherwise the position is put back on the
    /// grid line and the ray and forward scans run.
    fn regulate(&mut self, all_cars: &[Car])
        requires
            old(self).wf(),
            all_wf(all_cars@),
        ensures
            final(self).wf(),
            *final(self) == regulated(*old(self), all_cars@),
            final(self).index == old(self).index,
            final(self).path == old(self).path,
            final(self).moving == old(self).moving,
            final(self).direction == old(self).direction,
            final(self).turning == old(self).turning,
            final(self).id == old(self).id,
            final(self).spawned_at == old(self).spawned_at,
            final(self).model == old(self).model,
    {
        if self.turning == Turning::Right {
            self.accelerate(SCAN_DISTANCE);
            return;
        }
        if self.index < 2 {
            return;
        }
        if self.turning == Turning::Straight && 3 <= self.index && self.index <= 7 {
            self.sector_in_front(all_cars);
        }
        if self.index == 3 && self.sector_pos() > CLOSE_CALL_DISTANCE as i64 {
            self.check_passing(all_cars);
        }
        if self.turning == Turning::Left && 5 <= self.index && self.index <= 7 {
            self.center_scan(all_cars);
        }
        if self.index >= 8 {
            self.forward_scan(all_cars);
            return;
        }
        self.adjust_position();
        self.ray_casting(all_cars);
        self.forward_scan(all_cars);
    }

    /// Raises the velocity toward the speed limit, in proportion to the free distance
    /// ahead (up to the scan distance).
    pub fn accelerate(&mut self, distance: u64)
        requires
            old(self).vel <= SPEED_LIMIT,
        ensures
            *final(self) == (Car { vel: accelerated(old(self).vel as int, distance as int) as u64, ..*old(self) }),
            final(self).vel <= SPEED_LIMIT,
            old(self).vel == SPEED_LIMIT ==> final(self).vel == old(self).vel,
    {
        let free: u64 = if distance >= SCAN_DISTANCE {
            SCAN_DISTANCE
        } else {
            distance
        };
        if self.vel < SPEED_LIMIT {
            let room: u64 = SPEED_LIMIT - self.vel;
            assert(room * free <= room * SCAN_DISTANCE) by (nonlinear_arith)
                requires
                    free <= SCAN_DISTANCE,
            ;
            let gain: u64 = room * free / (FPS * SCAN_DISTANCE);
            assert(gain <= room) by (nonlinear_arith)
                requires
                    gain == room * free / (FPS * SCAN_DISTANCE),
                    room * free <= room * SCAN_DISTANCE,
            ;
            self.vel = self.vel + gain;
        }
    }

    /// Lowers the velocity for an obstacle `distance` away; never raises it, and stops
    /// the vehicle when the velocity falls under the stopping threshold.
    pub fn brake(&mut self, distance: u64)
        ensures
            *final(self) == (Car { vel: braked(old(self).vel as int, distance as int) as u64, ..*old(self) }),
            final(self).vel <= old(self).vel,
            old(self).vel == 0 ==> final(self).vel == 0,
    {
        let target: u128 = distance as u128 * VELOCITY_UNIT as u128 / SCAN_DISTANCE as u128;
        if target > self.vel as u128 {
            return;
        }
        self.vel = target as u64;
        if self.vel < STOP_VELOCITY {
            self.stop();
        }
    }

    pub fn stop(&mut self)
        ensures
            *final(self) == (Car { vel: 0, ..*old(self) }),
    {
        self.vel = 0;
    }

    /// Moves the vehicle along its heading, faster with no neighbour within the
    /// acceleration distance and slower with two or more.
    fn change_pos(&mut self, cars: &[Car])
        requires
            old(self).wf(),
            all_wf(cars@),
        ensures
            *final(self) == crowd_moved(*old(self), cars@),
    {
        let n = self.count_near(cars, 0, ACCELERATION_DISTANCE);
        let percent: u64 = if n == 0 {
            105
        } else if n == 1 {
            100
        } else {
            90
        };
        let d = travel_distance(self.vel, percent);
        match self.moving {
            Moving::Up => self.y = clamp_pos(self.y - d),
            Moving::Right => self.x = clamp_pos(self.x + d),
            Moving::Down => self.y = clamp_pos(self.y + d),
            Moving::Left => self.x = clamp_pos(self.x - d),
        }
    }

    /// Number of the other vehicles at a distance in `lo..hi`.
    pub fn count_near(&self, cars: &[Car], lo: u64, hi: u64) -> (r: usize)
        requires
            self.wf(),
            all_wf(cars@),
        ensures
            r == count_within(*self, cars@, lo as int, hi as int),
    {
        let mut n: usize = 0;
        let mut i: usize = 0;
        while i < cars.len()
            invariant
                i <= cars@.len(),
                self.wf(),
                all_wf(cars@),
                n == count_within(*self, cars@.take(i as int), lo as int, hi as int),
                n <= i,
            decreases cars@.len() - i,
        {
            assert(cars@.take(i as int + 1).drop_last() =~= cars@.take(i as int));
            assert(cars@.take(i as int + 1).last() == cars@[i as int]);
            assert(cars@[i as int].wf());
            let d = self.calc_dist(&cars[i]);
            if cars[i].id != self.id && lo <= d && d < hi {
                n = n + 1;
            }
            i = i + 1;
        }
        assert(cars@.take(i as int) =~= cars@);
        n
    }

    /// Distance to another vehicle.
    pub fn calc_dist(&self, other: &Car) -> (r: u64)
        requires
            self.wf(),
            other.wf(),
        ensures
            r == distance(*self, *other),
    {
        let dx: i64 = if self.x < other.x {
            other.x - self.x
        } else {
            self.x - other.x
        };
        let dy: i64 = if self.y < other.y {
            other.y - self.y
        } else {
            self.y - other.y
        };
        if dx > dy {
            dx as u64
        } else {
            dy as u64
        }
    }

    /// Distance covered inside the current sector, used to settle who passes first.
    pub fn sector_pos(&self) -> (r: i64)
        requires
            self.wf(),
        ensures
            r == self.progress(),
    {
        proof {
            self.lemma_wf_path();
        }
        let s = &self.path.sectors[self.index];
        match self.moving {
            Moving::Up => SECTOR_WIDTH - (self.y - s.y as i64 * SECTOR_WIDTH),
            Moving::Right => SECTOR_WIDTH - (s.x as i64 * SECTOR_WIDTH - self.x),
            Moving::Down => SECTOR_WIDTH - (s.y as i64 * SECTOR_WIDTH - self.y),
            Moving::Left => SECTOR_WIDTH - (self.x - s.x as i64 * SECTOR_WIDTH),
        }
    }

    /// Advances `index` once the vehicle reaches the corner of its target sector, unless
    /// another vehicle is moving toward the next sector; then it stops instead. A vehicle
    /// on the last sector of its path keeps it.
    fn move_in_path(&mut self, cars: &[Car])
        requires
            old(self).wf(),
            all_wf(cars@),
        ensures
            ({
                let o = *old(self);
                let len = o.path.sectors@.len();
                let advance = o.index + 2 <= len && o.reaches_target() && !claimed(
                    cars@,
                    o.path.sectors@[o.index + 1],
                );
                &&& final(self).index == if advance {
                    o.index + 1
                } else {
                    o.index as int
                }
                &&& *final(self) == gated(o, cars@)
            }),
    {
        proof {
            self.lemma_wf_path();
        }
        let len = self.path.sectors.len();
        if self.index + 1 >= len {
            return;
        }
        let next = self.path.sectors[self.index + 1];
        let mut car_ahead = false;
        let mut i: usize = 0;
        while i < cars.len()
            invariant
                i <= cars@.len(),
                all_wf(cars@),
                car_ahead == exists|j: int| 0 <= j < i && #[trigger] cars@[j].target().same_cell(next),
            decreases cars@.len() - i,
        {
            assert(cars@[i as int].wf());
            let claim = cars[i].path.sectors[cars[i].index] == next;
            assert(claim == cars@[i as int].target().same_cell(next));
            if claim {
                car_ahead = true;
            }
            i = i + 1;
        }
        if self.reaches_target_now() {
            if !car_ahead {
                self.index = self.index + 1;
            } else {
                self.stop();
            }
        }
    }

    fn reaches_target_now(&self) -> (r: bool)
        requires
            self.wf(),
        ensures
            r == self.reaches_target(),
    {
        proof {
            self.lemma_wf_path();
        }
        let s = &self.path.sectors[self.index];
        let step = travel_distance(self.vel, 100);
        match self.moving {
            Moving::Up => self.y - step <= s.y as i64 * SECTOR_WIDTH,
            Moving::Right => self.x + step >= s.x as i64 * SECTOR_WIDTH,
            Moving::Down => self.y + step >= s.y as i64 * SECTOR_WIDTH,
            Moving::Left => self.x - step <= s.x as i64 * SECTOR_WIDTH,
        }
    }

    /// Puts the off-axis coordinate on the current sector's grid line when the path bends.
    pub fn adjust_position(&mut self)
        requires
            old(self).wf(),
            old(self).index >= 1,
        ensures
            *final(self) == adjusted(*old(self)),
            final(self).wf(),
    {
        proof {
            self.lemma_wf_path();
            assert(in_grid(self.path.sectors@[self.index - 1].sx(), self.path.sectors@[self.index - 1].sy()));
        }
        let previous = self.index - 1;
        let px = self.path.sectors[previous].x;
        let py = self.path.sectors[previous].y;
        let sx = self.path.sectors[self.index].x;
        let sy = self.path.sectors[self.index].y;
        if sx != px {
            self.y = SECTOR_WIDTH * sy as i64;
        }
        if sy != py {
            self.x = SECTOR_WIDTH * sx as i64;
        }
    }

    /// The sector `n` places ahead of the target on the path.
    pub fn sector(&self, n: usize) -> (r: Sector)
        requires
            self.index + n < self.path.sectors@.len(),
        ensures
            r == self.path.sectors@[self.index + n],
    {
        let len = self.path.sectors.len();
        assert(self.index + n < len);
        self.path.sectors[self.index + n]
    }

    pub fn borders(&self) -> (r: Borders)
        requires
            self.wf(),
        ensures
            r == self.footprint(),
    {
        Borders { top: self.y, right: self.x + SECTOR_WIDTH, bottom: self.y + SECTOR_WIDTH, left: self.x }
    }

    /// Reports the transit time, in ticks, of the vehicle at tick `now`.
    pub fn add_time(&self, stats: &mut Statistics, now: u64)
        ensures
            ({
                let t = if now >= self.spawned_at {
                    now - self.spawned_at
                } else {
                    0
                };
                final(stats)@ == (StatisticsView {
                    min_time: min_step(old(stats)@.min_time, t),
                    max_time: max_step(old(stats)@.max_time, t),
                    average_time: average_step(
                        old(stats)@.average_time,
                        old(stats)@.close_calls + old(stats)@.collisions,
                        t,
                    ),
                    ..old(stats)@
                })
            }),
    {
        let t: u64 = if now >= self.spawned_at {
            now - self.spawned_at
        } else {
            0
        };
        stats.set_time(t);
    }

    /// The vehicle's footprint has crossed the boundary of the simulated area in its
    /// direction of travel.
    pub fn is_done(&self) -> (r: bool)
        requires
            self.wf(),
        ensures
            r == self.done(),
    {
        let b = self.borders();
        match self.moving {
            Moving::Up => b.bottom <= 0,
            Moving::Right => b.left >= WINDOW_SIZE,
            Moving::Down => b.top >= WINDOW_SIZE,
            Moving::Left => b.right <= 0,
        }
    }
}

/// Coordinates one sector before the entry sector `p`, on the side the vehicle enters from.
pub open spec fn entry_coords(p: Sector, direction: Direction) -> (i64, i64) {
    let x = grid_pos(p.sx());
    let y = grid_pos(p.sy());
    match direction {
        Direction::West => ((x - SECTOR_WIDTH) as i64, y as i64),
        Direction::East => ((x + SECTOR_WIDTH) as i64, y as i64),
        Direction::North => (x as i64, (y - SECTOR_WIDTH) as i64),
        Direction::South => (x as i64, (y + SECTOR_WIDTH) as i64),
    }
}

fn get_entry_coords(p: &Sector, direction: &Direction) -> (r: (i64, i64))
    requires
        in_grid(p.sx(), p.sy()),
    ensures
        r == entry_coords(*p, *direction),
        -2 * SECTOR_WIDTH <= r.0 <= WINDOW_SIZE + SECTOR_WIDTH,
        -2 * SECTOR_WIDTH <= r.1 <= WINDOW_SIZE + SECTOR_WIDTH,
{
    let x = SECTOR_WIDTH * p.x as i64;
    let y = SECTOR_WIDTH * p.y as i64;
    match direction {
        Direction::West => (x - SECTOR_WIDTH, y),
        Direction::East => (x + SECTOR_WIDTH, y),
        Direction::North => (x, y - SECTOR_WIDTH),
        Direction::South => (x, y + SECTOR_WIDTH),
    }
}

fn travel_distance(vel: u64, percent: u64) -> (r: i64)
    requires
        vel <= SPEED_LIMIT,
        percent <= 105,
    ensures
        r == travel(vel as int, percent as int),
        0 <= r <= 70,
{
    let a: u64 = vel * 1000 * 2000;
    assert(a == vel * SECTOR_WIDTH * SPEED_LIMIT);
    assert(a * percent <= 4_000_000_000 * 105) by (nonlinear_arith)
        requires
            a <= 4_000_000_000,
            percent <= 105,
    ;
    let r: u64 = a * percent / (VELOCITY_UNIT * VELOCITY_UNIT * FPS * 100);
    assert(r <= 70) by (nonlinear_arith)
        requires
            a * percent <= 4_000_000_000 * 105,
            r == a * percent / 6_000_000_000,
    ;
    r as i64
}

fn clamp_pos(v: i64) -> (r: i64)
    ensures
        r == clamp(v as int),
{
    if v < -POSITION_LIMIT {
        -POSITION_LIMIT
    } else if v > POSITION_LIMIT {
        POSITION_LIMIT
    } else {
        v
    }
}

} // verus!
