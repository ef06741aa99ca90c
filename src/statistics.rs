//! Running aggregate of what the agents report: the most vehicles seen, the extreme
//! velocities and transit times, and the close-call and collision counters.
use crate::config::FPS;
use vstd::prelude::*;

verus! {

/// Mathematical view of the statistics.
pub struct StatisticsView {
    pub max_vehicles: nat,
    pub max_velocity: int,
    pub min_velocity: int,
    pub max_time: int,
    pub min_time: int,
    pub close_calls: int,
    pub collisions: int,
    pub average_time: int,
}

/// The running minimum after one more observation: a zero minimum is a placeholder
/// that the next observation replaces.
pub open spec fn min_step(current: int, v: int) -> int {
    if current == 0 {
        v
    } else if v < current {
        v
    } else {
        current
    }
}

/// The running maximum after one more observation.
pub open spec fn max_step(current: int, v: int) -> int {
    if v > current {
        v
    } else {
        current
    }
}

/// The running minimum after feeding the observations `s`, starting from `start`.
pub open spec fn fold_min_from(start: int, s: Seq<u64>) -> int
    decreases s.len(),
{
    if s.len() == 0 {
        start
    } else {
        min_step(fold_min_from(start, s.drop_last()), s.last() as int)
    }
}

/// The running maximum after feeding the observations `s`, starting from `start`.
pub open spec fn fold_max_from(start: int, s: Seq<u64>) -> int
    decreases s.len(),
{
    if s.len() == 0 {
        start
    } else {
        max_step(fold_max_from(start, s.drop_last()), s.last() as int)
    }
}

/// The running minimum after feeding the observations `s` to a fresh aggregate.
pub open spec fn fold_min(s: Seq<u64>) -> int {
    fold_min_from(0, s)
}

/// The running maximum after feeding the observations `s` to a fresh aggregate.
pub open spec fn fold_max(s: Seq<u64>) -> int {
    fold_max_from(0, s)
}

/// The running average after one more transit time, weighted by the number of
/// close calls and collisions seen so far.
pub open spec fn average_step(average: int, events: int, time: int) -> int {
    (average * events + time) / (events + 1)
}

/// Feeding positive observations to a fresh aggregate (`new`, then `set_velocities`)
/// leaves as running minimum and maximum the least and the greatest observation.
pub proof fn lemma_running_extremes(s: Seq<u64>)
    requires
        s.len() > 0,
        forall|i: int| 0 <= i < s.len() ==> s[i] > 0,
    ensures
        exists|i: int| 0 <= i < s.len() && fold_min(s) == s[i],
        forall|j: int| 0 <= j < s.len() ==> fold_min(s) <= s[j],
        exists|i: int| 0 <= i < s.len() && fold_max(s) == s[i],
        forall|j: int| 0 <= j < s.len() ==> fold_max(s) >= s[j],
    decreases s.len(),
{
    let p = s.drop_last();
    let n = s.len() - 1;
    if p.len() == 0 {
        assert(fold_min(p) == 0);
        assert(fold_max(p) == 0);
        assert(fold_min(s) == s[0]);
        assert(fold_max(s) == s[0]);
    } else {
        assert forall|i: int| 0 <= i < p.len() implies p[i] > 0 by {
            assert(p[i] == s[i]);
        }
        lemma_running_extremes(p);
        let i1 = choose|i: int| 0 <= i < p.len() && fold_min(p) == p[i];
        let i2 = choose|i: int| 0 <= i < p.len() && fold_max(p) == p[i];
        assert(p[i1] == s[i1]);
        assert(p[i2] == s[i2]);
        assert(fold_min(p) > 0);
        if s[n] < fold_min(p) {
            assert(fold_min(s) == s[n]);
        } else {
            assert(fold_min(s) == s[i1]);
        }
        if s[n] > fold_max(p) {
            assert(fold_max(s) == s[n]);
        } else {
            assert(fold_max(s) == s[i2]);
        }
        assert forall|j: int| 0 <= j < s.len() implies fold_min(s) <= s[j] && fold_max(s) >= s[j] by {
            if j < n {
                assert(p[j] == s[j]);
            }
        }
    }
}

pub struct Statistics {
    max_vehicles: usize,
    max_velocity: u64,
    min_velocity: u64,
    max_time: u64,
    min_time: u64,
    close_calls: u32,
    collisions: u32,
    average_time: u64,
}

impl View for Statistics {
    type V = StatisticsView;

    closed spec fn view(&self) -> StatisticsView {
        StatisticsView {
            max_vehicles: self.max_vehicles as nat,
            max_velocity: self.max_velocity as int,
            min_velocity: self.min_velocity as int,
            max_time: self.max_time as int,
            min_time: self.min_time as int,
            close_calls: self.close_calls as int,
            collisions: self.collisions as int,
            average_time: self.average_time as int,
        }
    }
}

/// The value of a counter after one more event; it stays at its greatest value.
pub open spec fn counter_step(c: int) -> int {
    if c < u32::MAX {
        c + 1
    } else {
        c
    }
}

impl Statistics {
    /// The counters fit their 32-bit fields.
    pub proof fn lemma_counters_bounded(&self)
        ensures
            0 <= self@.close_calls <= u32::MAX,
            0 <= self@.collisions <= u32::MAX,
    {
    }

    pub fn new() -> (r: Statistics)
        ensures
            r@ == (StatisticsView {
                max_vehicles: 0,
                max_velocity: 0,
                min_velocity: 0,
                max_time: 0,
                min_time: 0,
                close_calls: 0,
                collisions: 0,
                average_time: 0,
            }),
    {
        Statistics {
            max_vehicles: 0,
            max_velocity: 0,
            min_velocity: 0,
            max_time: 0,
            min_time: 0,
            close_calls: 0,
            collisions: 0,
            average_time: 0,
        }
    }

    pub fn set_max_vehicles(&mut self, max_vehicles: usize)
        ensures
            final(self)@ == (StatisticsView {
                max_vehicles: if max_vehicles > old(self)@.max_vehicles {
                    max_vehicles as nat
                } else {
                    old(self)@.max_vehicles
                },
                ..old(self)@
            }),
    {
        if max_vehicles > self.max_vehicles {
            self.max_vehicles = max_vehicles;
        }
    }

    /// Records an observed velocity.
    pub fn set_velocity(&mut self, velocity: u64)
        ensures
            final(self)@ == (StatisticsView {
                min_velocity: min_step(old(self)@.min_velocity, velocity as int),
                max_velocity: max_step(old(self)@.max_velocity, velocity as int),
                ..old(self)@
            }),
    {
        self.set_min_velocity(velocity);
        self.set_max_velocity(velocity);
    }

    /// Records the observed velocities `vs`, in order.
    pub fn set_velocities(&mut self, vs: &[u64])
        ensures
            final(self)@ == (StatisticsView {
                min_velocity: fold_min_from(old(self)@.min_velocity, vs@),
                max_velocity: fold_max_from(old(self)@.max_velocity, vs@),
                ..old(self)@
            }),
    {
        let ghost s0 = self@;
        let mut i: usize = 0;
        while i < vs.len()
            invariant
                i <= vs@.len(),
                self@ == (StatisticsView {
                    min_velocity: fold_min_from(s0.min_velocity, vs@.take(i as int)),
                    max_velocity: fold_max_from(s0.max_velocity, vs@.take(i as int)),
                    ..s0
                }),
            decreases vs@.len() - i,
        {
            assert(vs@.take(i as int + 1).drop_last() =~= vs@.take(i as int));
            assert(vs@.take(i as int + 1).last() == vs@[i as int]);
            self.set_velocity(vs[i]);
            i = i + 1;
        }
        assert(vs@.take(i as int) =~= vs@);
    }

    pub fn set_max_velocity(&mut self, max_velocity: u64)
        ensures
            final(self)@ == (StatisticsView {
                max_velocity: max_step(old(self)@.max_velocity, max_velocity as int),
                ..old(self)@
            }),
    {
        if max_velocity > self.max_velocity {
            self.max_velocity = max_velocity;
        }
    }

    pub fn set_min_velocity(&mut self, min_velocity: u64)
        ensures
            final(self)@ == (StatisticsView {
                min_velocity: min_step(old(self)@.min_velocity, min_velocity as int),
                ..old(self)@
            }),
    {
        if self.min_velocity == 0 {
            self.min_velocity = min_velocity;
        }
        if min_velocity < self.min_velocity {
            self.min_velocity = min_velocity;
        }
    }

    /// Records the transit time of an agent that left the intersection.
    pub fn set_time(&mut self, time: u64)
        ensures
            final(self)@ == (StatisticsView {
                min_time: min_step(old(self)@.min_time, time as int),
                max_time: max_step(old(self)@.max_time, time as int),
                average_time: average_step(
                    old(self)@.average_time,
                    old(self)@.close_calls + old(self)@.collisions,
                    time as int,
                ),
                ..old(self)@
            }),
    {
        self.set_min_time(time);
        self.set_max_time(time);
        self.add_time(time);
    }

    pub fn set_max_time(&mut self, max_time: u64)
        ensures
            final(self)@ == (StatisticsView {
                max_time: max_step(old(self)@.max_time, max_time as int),
                ..old(self)@
            }),
    {
        if max_time > self.max_time {
            self.max_time = max_time;
        }
    }

    pub fn set_min_time(&mut self, min_time: u64)
        ensures
            final(self)@ == (StatisticsView {
                min_time: min_step(old(self)@.min_time, min_time as int),
                ..old(self)@
            }),
    {
        if self.min_time == 0 {
            self.min_time = min_time;
        }
        if min_time < self.min_time {
            self.min_time = min_time;
        }
    }

    /// Folds a transit time into the running average.
    pub fn add_time(&mut self, time: u64)
        ensures
            final(self)@ == (StatisticsView {
                average_time: average_step(
                    old(self)@.average_time,
                    old(self)@.close_calls + old(self)@.collisions,
                    time as int,
                ),
                ..old(self)@
            }),
    {
        let count: u128 = self.close_calls as u128 + self.collisions as u128;
        let avg: u128 = self.average_time as u128;
        let t: u128 = time as u128;
        let m: u128 = if avg > t {
            avg
        } else {
            t
        };
        assert(avg * count + t <= m * (count + 1)) by (nonlinear_arith)
            requires
                avg <= m,
                t <= m,
        ;
        assert(avg * count <= 0xffff_ffff_ffff_ffffu128 * 0x1_ffff_fffeu128) by (nonlinear_arith)
            requires
                avg <= 0xffff_ffff_ffff_ffffu128,
                count <= 0x1_ffff_fffeu128,
        ;
        let total: u128 = avg * count + t;
        let next: u128 = total / (count + 1);
        assert(next <= m) by (nonlinear_arith)
            requires
                total <= m * (count + 1),
                next as int == total as int / (count as int + 1),
                count >= 0,
        ;
        self.average_time = next as u64;
    }

    pub fn set_close_calls(&mut self)
        ensures
            final(self)@ == (StatisticsView { close_calls: counter_step(old(self)@.close_calls), ..old(self)@ }),
    {
        if self.close_calls < u32::MAX {
            self.close_calls = self.close_calls + 1;
        }
    }

    pub fn set_collisions(&mut self)
        ensures
            final(self)@ == (StatisticsView { collisions: counter_step(old(self)@.collisions), ..old(self)@ }),
    {
        if self.collisions < u32::MAX {
            self.collisions = self.collisions + 1;
        }
    }

    pub fn max_vehicles(&self) -> (r: usize)
        ensures
            r == self@.max_vehicles,
    {
        self.max_vehicles
    }

    pub fn max_velocity(&self) -> (r: u64)
        ensures
            r == self@.max_velocity,
    {
        self.max_velocity
    }

    pub fn min_velocity(&self) -> (r: u64)
        ensures
            r == self@.min_velocity,
    {
        self.min_velocity
    }

    pub fn max_time(&self) -> (r: u64)
        ensures
            r == self@.max_time,
    {
        self.max_time
    }

    pub fn min_time(&self) -> (r: u64)
        ensures
            r == self@.min_time,
    {
        self.min_time
    }


    /// The running average of transit times, weighted by the number of events.
    pub fn average_time(&self) -> (r: u64)
        ensures
            r == self@.average_time,
    {
        self.average_time
    }

    /// Close calls per second: each event is seen by both agents involved.
    pub fn close_calls(&self) -> (r: u32)
        ensures
            r == self@.close_calls / 2 / (FPS as int),
    {
        (self.close_calls / 2) / (FPS as u32)
    }

    /// Collisions per second: each event is seen by both agents involved.
    pub fn collisions(&self) -> (r: u32)
        ensures
            r == self@.collisions / 2 / (FPS as int),
    {
        (self.collisions / 2) / (FPS as u32)
    }

    /// Number of close-call reports received.
    pub fn close_call_events(&self) -> (r: u32)
        ensures
            r == self@.close_calls,
    {
        self.close_calls
    }

    /// Number of collision reports received.
    pub fn collision_events(&self) -> (r: u32)
        ensures
            r == self@.collisions,
    {
        self.collisions
    }
}

impl Default for Statistics {
    fn default() -> (r: Statistics)
        ensures
            r@ == (StatisticsView {
                max_vehicles: 0,
                max_velocity: 0,
                min_velocity: 0,
                max_time: 0,
                min_time: 0,
                close_calls: 0,
                collisions: 0,
                average_time: 0,
            }),
    {
        Self::new()
    }
}

} // verus!
