//! Fan-control core: locating sensor files, parsing temperature readings,
//! piecewise-linear fan-curve interpolation, tick scheduling and
//! actuation-command encoding, all verified. I/O — loading the
//! configuration, reading sysfs files, running the actuation command —
//! lives outside this crate and hands in plain values.

pub mod actuate;
pub mod config;
pub mod curve;
pub mod duty;
pub mod resolve;
pub mod sample;
pub mod schedule;
pub mod sensor;
