//! Depth-resolved optical reflectance of a stack of thin, optically flat
//! layers, evaluated independently for three wavelength channels.
//!
//! All arithmetic is exact signed fixed-point arithmetic over integer
//! magnitudes (see [`fx`]); the complex-exponential phase factors, which no
//! exact arithmetic can produce, are taken as inputs by the recursion (see
//! [`structure::Structure::reie`]) and are computed by the caller from the
//! phase coefficients the library reports.

pub mod cx;
pub mod fx;
pub mod laws;
pub mod layer;
pub mod parser;
pub mod structure;
