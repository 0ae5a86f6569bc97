//! The command line of Dev Browser, without its input and output.
//!
//! A command runs a script in a browser that a background daemon manages, or
//! looks after the daemon itself. This library decides what a command does:
//! [`session`] takes it from step to step, [`startup`] and [`install`] do the
//! same for the daemon's start and for what it needs, [`request`] and
//! [`response`] hold what is said to the daemon and what is made of its
//! answers, and [`doctor`], [`gc`] and [`report`] look after the files that are
//! left behind. Reading, writing, spawning and waiting are up to the caller,
//! who hands in what came of them.

pub mod text;
pub mod units;
pub mod paths;
pub mod json;
pub mod exit_code;
pub mod config;
pub mod connection;
pub mod daemon;
pub mod install;
pub mod startup;
pub mod cli;
pub mod request;
pub mod response;
pub mod session;
pub mod doctor;
pub mod gc;
pub mod report;
