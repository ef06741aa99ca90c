//! The scans a vehicle runs each tick to regulate its speed, and the proximity sweep
//! that reports close calls and collisions.
use crate::car::{accelerated, all_wf, braked, count_within, distance, Car};
use crate::config::{CLOSE_CALL_DISTANCE, COLLISION_DISTANCE, SCAN_DISTANCE, SECTOR_WIDTH, SPEED_LIMIT};
use crate::path::{gap, Moving, Turning};
use crate::statistics::{Statistics, StatisticsView};
use vstd::prelude::*;

verus! {

/// What a scan looks for.
#[derive(Clone, Copy, Debug, PartialEq, Eq, Structural)]
pub enum Scan {
    /// A vehicle ahead in the same corridor, within the scan distance.
    Lane,
    /// A vehicle within the scan distance in the forward cone of 45 degrees each side.
    Cone,
    /// A vehicle within the scan distance inside the central four-by-four sectors.
    Center,
    /// A vehicle moving toward the sector after the target.
    NextSector,
    /// A crossing vehicle from another direction that has priority over this one.
    Priority,
}

/// Signed distance from `me` to `c` along the heading of `me`.
pub open spec fn ahead(me: Car, c: Car) -> int {
    match me.moving {
        Moving::Up => me.y - c.y,
        Moving::Down => c.y - me.y,
        Moving::Right => c.x - me.x,
        Moving::Left => me.x - c.x,
    }
}

/// Distance from `me` to `c` across the heading of `me`.
pub open spec fn lateral(me: Car, c: Car) -> int {
    match me.moving {
        Moving::Up | Moving::Down => gap(me.x as int, c.x as int),
        Moving::Right | Moving::Left => gap(me.y as int, c.y as int),
    }
}

pub open spec fn in_center(c: Car) -> bool {
    4 * SECTOR_WIDTH <= c.x < 8 * SECTOR_WIDTH && 4 * SECTOR_WIDTH <= c.y < 8 * SECTOR_WIDTH
}

/// `c` has right of way over `me`: it is further along its crossing, or as far and older.
pub open spec fn has_priority(me: Car, c: Car) -> bool {
    &&& c.direction != me.direction
    &&& c.turning != Turning::Right
    &&& 2 <= c.index <= 7
    &&& distance(me, c) < SCAN_DISTANCE
    &&& (c.index > me.index || (c.index == me.index && c.id < me.id))
}

/// The distance at which a scan of kind `kind` run by `me` sees `c`, if it sees it.
pub open spec fn sighting(me: Car, c: Car, kind: Scan) -> Option<int> {
    if c.id == me.id {
        None
    } else {
        match kind {
            Scan::Lane => if 0 < ahead(me, c) <= SCAN_DISTANCE && lateral(me, c) < SECTOR_WIDTH {
                Some(ahead(me, c))
            } else {
                None
            },
            Scan::Cone => if 0 < ahead(me, c) && lateral(me, c) <= ahead(me, c) && distance(me, c)
                < SCAN_DISTANCE {
                Some(distance(me, c))
            } else {
                None
            },
            Scan::Center => if in_center(c) && distance(me, c) < SCAN_DISTANCE {
                Some(distance(me, c))
            } else {
                None
            },
            Scan::NextSector => if me.index + 1 < me.path.sectors@.len() && c.target().same_cell(
                me.path.sectors@[me.index + 1],
            ) {
                Some(distance(me, c))
            } else {
                None
            },
            Scan::Priority => if has_priority(me, c) {
                Some(distance(me, c))
            } else {
                None
            },
        }
    }
}

/// The least distance at which a scan of kind `kind` run by `me` sees a vehicle of `cars`.
pub open spec fn nearest(me: Car, cars: Seq<Car>, kind: Scan) -> Option<int>
    decreases cars.len(),
{
    if cars.len() == 0 {
        None
    } else {
        let rest = nearest(me, cars.drop_last(), kind);
        match sighting(me, cars.last(), kind) {
            None => rest,
            Some(d) => match rest {
                None => Some(d),
                Some(e) => Some(if d < e { d } else { e }),
            },
        }
    }
}

/// Velocity after braking for the nearest sighting, or unchanged without one.
pub open spec fn braked_for(vel: int, seen: Option<int>) -> int {
    match seen {
        Some(d) => braked(vel, d),
        None => vel,
    }
}

/// A counter after `k` more events; it stays at its greatest value.
pub open spec fn counter_add(c: int, k: int) -> int {
    if c + k > u32::MAX {
        u32::MAX as int
    } else {
        c + k
    }
}

/// The vehicle with velocity `v`.
pub open spec fn with_vel(c: Car, v: int) -> Car {
    Car { vel: v as u64, ..c }
}

/// After the forward scan: braked for the nearest vehicle ahead in the corridor, or
/// accelerated when the corridor is free.
pub open spec fn forward_scanned(c: Car, cars: Seq<Car>) -> Car {
    with_vel(
        c,
        match nearest(c, cars, Scan::Lane) {
            Some(d) => braked(c.vel as int, d),
            None => accelerated(c.vel as int, SCAN_DISTANCE as int),
        },
    )
}

/// After braking for the nearest vehicle a scan of kind `kind` sees.
pub open spec fn braked_by(c: Car, cars: Seq<Car>, kind: Scan) -> Car {
    with_vel(c, braked_for(c.vel as int, nearest(c, cars, kind)))
}

/// After the priority check: stopped when another vehicle has priority, accelerated otherwise.
pub open spec fn passing_checked(c: Car, cars: Seq<Car>) -> Car {
    with_vel(
        c,
        if nearest(c, cars, Scan::Priority) is Some {
            0
        } else {
            accelerated(c.vel as int, SCAN_DISTANCE as int)
        },
    )
}

/// The statistics after `c` reports the vehicles of `cars` near it.
pub open spec fn proximity_recorded(s: StatisticsView, c: Car, cars: Seq<Car>) -> StatisticsView {
    StatisticsView {
        collisions: counter_add(s.collisions, count_within(c, cars, 0, COLLISION_DISTANCE as int) as int),
        close_calls: counter_add(
            s.close_calls,
            count_within(c, cars, COLLISION_DISTANCE as int, CLOSE_CALL_DISTANCE as int) as int,
        ),
        ..s
    }
}

impl Car {
    /// The least distance at which a scan of the given kind sees another vehicle.
    pub fn scan(&self, cars: &[Car], kind: Scan) -> (r: Option<u64>)
        requires
            self.wf(),
            all_wf(cars@),
        ensures
            r matches Some(d) ==> nearest(*self, cars@, kind) == Some(d as int),
            r is None ==> nearest(*self, cars@, kind) is None,
    {
        let mut best: Option<u64> = None;
        let mut i: usize = 0;
        while i < cars.len()
            invariant
                i <= cars@.len(),
                self.wf(),
                all_wf(cars@),
                best matches Some(d) ==> nearest(*self, cars@.take(i as int), kind) == Some(d as int),
                best is None ==> nearest(*self, cars@.take(i as int), kind) is None,
            decreases cars@.len() - i,
        {
            assert(cars@.take(i as int + 1).drop_last() =~= cars@.take(i as int));
            assert(cars@.take(i as int + 1).last() == cars@[i as int]);
            assert(cars@[i as int].wf());
            let seen = self.sighting_of(&cars[i], kind);
            match seen {
                Some(d) => {
                    best = match best {
                        None => Some(d),
                        Some(e) => Some(
                            if d < e {
                                d
                            } else {
                                e
                            },
                        ),
                    };
                },
                None => {},
            }
            i = i + 1;
        }
        assert(cars@.take(i as int) =~= cars@);
        best
    }

    /// The distance at which a scan of the given kind sees `c`, if it sees it.
    fn sighting_of(&self, c: &Car, kind: Scan) -> (r: Option<u64>)
        requires
            self.wf(),
            c.wf(),
        ensures
            r matches Some(d) ==> sighting(*self, *c, kind) == Some(d as int),
            r is None ==> sighting(*self, *c, kind) is None,
    {
        if c.id == self.id {
            return None;
        }
        let d = self.calc_dist(c);
        let fwd: i64 = match self.moving {
            Moving::Up => self.y - c.y,
            Moving::Down => c.y - self.y,
            Moving::Right => c.x - self.x,
            Moving::Left => self.x - c.x,
        };
        let (a, b) = match self.moving {
            Moving::Up | Moving::Down => (self.x, c.x),
            Moving::Right | Moving::Left => (self.y, c.y),
        };
        let side: i64 = if a < b {
            b - a
        } else {
            a - b
        };
        match kind {
            Scan::Lane => if 0 < fwd && fwd <= SCAN_DISTANCE as i64 && side < SECTOR_WIDTH {
                Some(fwd as u64)
            } else {
                None
            },
            Scan::Cone => if 0 < fwd && side <= fwd && d < SCAN_DISTANCE {
                Some(d)
            } else {
                None
            },
            Scan::Center => if 4 * SECTOR_WIDTH <= c.x && c.x < 8 * SECTOR_WIDTH && 4 * SECTOR_WIDTH <= c.y
                && c.y < 8 * SECTOR_WIDTH && d < SCAN_DISTANCE {
                Some(d)
            } else {
                None
            },
            Scan::NextSector => {
                let len = self.path.sectors.len();
                if self.index + 1 < len && c.path.sectors[c.index] == self.path.sectors[self.index + 1] {
                    Some(d)
                } else {
                    None
                }
            },
            Scan::Priority => if c.direction != self.direction && c.turning != Turning::Right && 2
                <= c.index && c.index <= 7 && d < SCAN_DISTANCE && (c.index > self.index || (c.index
                == self.index && c.id < self.id)) {
                Some(d)
            } else {
                None
            },
        }
    }

    /// Reports every other vehicle within the collision distance as a collision, and every
    /// other one within the close-call distance but not the collision distance as a close call.
    pub fn record_proximity(&self, cars: &[Car], stats: &mut Statistics)
        requires
            self.wf(),
            all_wf(cars@),
        ensures
            final(stats)@ == proximity_recorded(old(stats)@, *self, cars@),
    {
        let hits = self.count_near(cars, 0, COLLISION_DISTANCE);
        let near = self.count_near(cars, COLLISION_DISTANCE, CLOSE_CALL_DISTANCE);
        let ghost s0 = stats@;
        proof {
            stats.lemma_counters_bounded();
        }
        let mut k: usize = 0;
        while k < hits
            invariant
                k <= hits,
                stats@ == (StatisticsView { collisions: counter_add(s0.collisions, k as int), ..s0 }),
            decreases hits - k,
        {
            stats.set_collisions();
            k = k + 1;
        }
        let ghost s1 = stats@;
        proof {
            stats.lemma_counters_bounded();
        }
        k = 0;
        while k < near
            invariant
                k <= near,
                stats@ == (StatisticsView { close_calls: counter_add(s1.close_calls, k as int), ..s1 }),
            decreases near - k,
        {
            stats.set_close_calls();
            k = k + 1;
        }
    }

    /// Brakes for the nearest vehicle ahead in the corridor, or accelerates when the
    /// corridor is free over the scan distance.
    pub fn forward_scan(&mut self, cars: &[Car])
        requires
            old(self).wf(),
            all_wf(cars@),
        ensures
            *final(self) == forward_scanned(*old(self), cars@),
            final(self).wf(),
    {
        match self.scan(cars, Scan::Lane) {
            Some(d) => self.brake(d),
            None => self.accelerate(SCAN_DISTANCE),
        }
    }

    /// Casts rays ahead and to both sides and brakes for the nearest vehicle they hit.
    pub fn ray_casting(&mut self, cars: &[Car])
        requires
            old(self).wf(),
            all_wf(cars@),
        ensures
            *final(self) == braked_by(*old(self), cars@, Scan::Cone),
            final(self).wf(),
    {
        self.brake_for(cars, Scan::Cone);
    }

    /// Brakes for the nearest vehicle in the center of the intersection.
    pub fn center_scan(&mut self, cars: &[Car])
        requires
            old(self).wf(),
            all_wf(cars@),
        ensures
            *final(self) == braked_by(*old(self), cars@, Scan::Center),
            final(self).wf(),
    {
        self.brake_for(cars, Scan::Center);
    }

    /// Brakes for the nearest vehicle moving toward the sector after the target.
    pub fn sector_in_front(&mut self, cars: &[Car])
        requires
            old(self).wf(),
            all_wf(cars@),
        ensures
            *final(self) == braked_by(*old(self), cars@, Scan::NextSector),
            final(self).wf(),
    {
        self.brake_for(cars, Scan::NextSector);
    }

    /// Settles who passes first where two crossings meet: the vehicle stops when a
    /// crossing vehicle from another direction has priority, and accelerates otherwise.
    pub fn check_passing(&mut self, cars: &[Car])
        requires
            old(self).wf(),
            all_wf(cars@),
        ensures
            *final(self) == passing_checked(*old(self), cars@),
            final(self).wf(),
    {
        match self.scan(cars, Scan::Priority) {
            Some(_) => self.stop(),
            None => self.accelerate(SCAN_DISTANCE),
        }
    }

    fn brake_for(&mut self, cars: &[Car], kind: Scan)
        requires
            old(self).wf(),
            all_wf(cars@),
        ensures
            *final(self) == braked_by(*old(self), cars@, kind),
            final(self).wf(),
    {
        match self.scan(cars, kind) {
            Some(d) => self.brake(d),
            None => {},
        }
    }
}

} // verus!
