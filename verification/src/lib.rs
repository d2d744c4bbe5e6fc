//! Decision core of an ARMA modelling pipeline for a single price series.
//!
//! Quantities are held by their IEEE 754 binary64 bit patterns; the crate
//! orders them and counts outcomes, and leaves arithmetic on them to its caller.

pub mod eval;
pub mod order;
pub mod pipeline;
pub mod scalar;
pub mod search;
pub mod signals;
pub mod simplex;
pub mod stationarity;
