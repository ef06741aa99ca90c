//! Tunable constants of the simulation. Lengths are in logical units, velocities in
//! thousandths of the nominal velocity unit; every safety margin is derived from the
//! window size and the grid size.
use vstd::prelude::*;

verus! {

/// Number of sectors along each side of the square intersection grid.
pub const GRID_SIZE: i64 = 12;

/// Width of one sector, in logical units.
pub const SECTOR_WIDTH: i64 = 1000;

/// Width and height of the simulated area, in logical units.
pub const WINDOW_SIZE: i64 = 12000;

/// Simulation ticks per second.
pub const FPS: u64 = 60;

/// Velocity scale: a velocity of `VELOCITY_UNIT` is the nominal unit velocity.
pub const VELOCITY_UNIT: u64 = 1000;

/// Highest velocity an agent may reach (two units).
pub const SPEED_LIMIT: u64 = 2000;

/// Velocity of a freshly spawned agent (one unit).
pub const INITIAL_VELOCITY: u64 = 1000;

/// Below this velocity a braking agent comes to a full stop.
pub const STOP_VELOCITY: u64 = 300;

/// Two agents closer than this have had a close call (0.9 sector).
pub const CLOSE_CALL_DISTANCE: u64 = 900;

/// Two agents closer than this have collided (0.8 sector).
pub const COLLISION_DISTANCE: u64 = 800;

/// Look-ahead radius of the scans (three sectors).
pub const SCAN_DISTANCE: u64 = 3000;

/// Radius within which neighbours damp an agent's movement (half the scan distance).
pub const ACCELERATION_DISTANCE: u64 = 1500;

/// Bound on the coordinates an agent may take; far beyond the simulated area.
pub const POSITION_LIMIT: i64 = 1_000_000_000;

/// The constants are derived from the window size and the grid size as stated.
pub proof fn lemma_config_proportions()
    ensures
        SECTOR_WIDTH == WINDOW_SIZE / GRID_SIZE,
        CLOSE_CALL_DISTANCE == SECTOR_WIDTH * 9 / 10,
        COLLISION_DISTANCE == SECTOR_WIDTH * 8 / 10,
        SCAN_DISTANCE == SECTOR_WIDTH * 3,
        ACCELERATION_DISTANCE == SCAN_DISTANCE / 2,
{
}

} // verus!
