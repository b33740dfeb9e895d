//! A command sequencer: each run picks one command of a fixed schedule and
//! advances a position that is kept between runs.

pub mod args;
pub mod fingerprint;
pub mod run;
pub mod schedule;
pub mod store;
pub mod text;
