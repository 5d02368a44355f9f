//! The planning core of a fixed-step gravitational N-body integrator.
//!
//! A run moves a small set of point masses forward in time by a fixed number
//! of equal steps and records their state at regular intervals.  This crate
//! holds the part of such a run that is a matter of counting: whether the
//! initial conditions fit together ([`shape`]), how many samples a run takes
//! and where each one goes ([`schedule`]), and in which order everything
//! happens ([`driver`]).  The arithmetic on positions, velocities and
//! energies is the caller's: it carries out the actions that the driver
//! hands out, one at a time.
//!
//! Every function here is proved to meet its contract, and the properties
//! that hold of a whole run are stated as proof functions next to the
//! functions they are about.

pub mod driver;
pub mod schedule;
pub mod shape;
