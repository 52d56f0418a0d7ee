//! A fixed-timestep bearing simulation: an observing ship and moving
//! contacts, with a sliding-window history of relative bearings per contact.
//!
//! Units throughout: angles in microdegrees clockwise from north, positions
//! in millimetres (x east, y north), speeds in milliknots, times in
//! microseconds.
pub mod angle;
pub mod kinematics;
pub mod clock;
pub mod history;
pub mod tracker;
pub mod world;
