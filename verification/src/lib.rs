//! A stochastic discrete-event simulator of a service facility: clients arrive,
//! take a table, wait for one of a pool of workers, order, eat and leave.
//!
//! All quantities are exact integers. Averages and other derived measures are
//! fixed-point numbers in millionths (see [`results::SCALE`]); a measure that is
//! not defined, such as the average of no observations, is `None`.

pub mod chart;
pub mod config;
pub mod event;
pub mod experiment;
pub mod history;
pub mod model;
pub mod random;
pub mod results;
pub mod scenario;
pub mod simulation;
pub mod statistic;
pub mod tasks;

pub use config::{Chance, EstimationConfig, SimulationConfig, Span};
pub use event::{Event, SimulationTick};
pub use experiment::ExperimentConfig;
pub use history::Log;
pub use results::Results;
pub use simulation::Simulation;
pub use statistic::Stats;
pub use tasks::{
    task_3_1, task_3_2, task_3_3, task_3_4, task_3_5, task_3_6, task_4_1, task_4_2, task_4_3,
};
