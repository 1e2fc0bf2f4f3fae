//! Signal-strength presentation for nearby wireless access points: a clamped
//! bar count, a bar indicator over a calibrated dBm range, a path-loss
//! distance exponent, and the assembly of one report row per scanned network.

pub mod signal;
pub mod distance;
pub mod report;
