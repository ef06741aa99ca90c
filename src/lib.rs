//! Coordination engine for autonomous vehicles crossing a four-way intersection.
pub mod car;
pub mod collision;
pub mod config;
pub mod path;
mod random;
pub mod road;
pub mod state;
pub mod statistics;

pub use car::{Borders, Car, Model};
pub use collision::Scan;
pub use path::{Direction, Moving, Path, Sector, Turning};
pub use road::Route;
pub use state::State;
pub use statistics::{Statistics, StatisticsView};
