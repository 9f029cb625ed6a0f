//! Reading the resource usage of a Slurm job.

pub mod calendar;
pub mod cgroup;
pub mod command;
pub mod gpu;
pub mod job;
pub mod listing;
pub mod monitor;
pub mod number;
pub mod pattern;
pub mod text;
