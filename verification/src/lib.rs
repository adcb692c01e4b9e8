//! Spectral fingerprints of PCM audio and their pitch contour.
//!
//! A window of 16-bit samples is transformed to the frequency domain, the
//! spectrum is summed over caller-defined frequency bands, band energies are
//! merged over time, and the movement of the strongest band from one frame to
//! the next is written down as a string of rise, fall and repeat symbols.
//!
//! Energies are whole numbers. The transform itself runs in single precision
//! inside `rustfft`; every bin is cut to a whole number where it enters the
//! library, and all arithmetic after that point is exact.

pub mod error;
pub mod energy;
pub mod spectrum;
pub mod band_energy;
pub mod aggregate;
pub mod contour;
