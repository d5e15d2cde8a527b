//! Verified core of an underwater acoustic ray tracer: input validation,
//! grid-cell search for the sound-speed and bathymetry cursors, receiver
//! layout, earliest-arrival bookkeeping and the ray work split.
pub mod binary32;
pub mod grid;
pub mod input;
pub mod ssp;
pub mod bty;
pub mod influence;
pub mod engine;
pub mod reflect;
