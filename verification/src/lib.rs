//! Quality-assurance metrics for radio-interferometer calibration solutions
//! and calibrated images.
//!
//! The crate turns a calibration solution's complex gain array, or an image's
//! pixel array, into per-antenna (or scalar) quality indicators: gain-curve
//! smoothness from the spectrum of the bandpass-normalized gain magnitudes,
//! phase linearity from a least-squares fit, cross-polarization phase drift,
//! and image dynamic range. Reading the observatory files, command-line
//! handling and the text writer live outside this crate; the crate receives
//! plain arrays and hands back plain vectors.

pub mod aggregate;
pub mod amplitude;
pub mod commands;
pub mod image;
pub mod interp;
pub mod phase;
pub mod scalar;
pub mod solutions;
