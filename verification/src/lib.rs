//! Amplitude spectrum of an irregularly sampled, piecewise-linear water-level
//! record, computed by closed-form integration of each linear segment against a
//! complex exponential kernel.
//!
//! All quantities are held in fixed-point integers: water levels at
//! `LEVEL_SCALE` units per metre, frequencies at `FREQ_SCALE` units per hertz,
//! and Fourier coefficients at `COEF_SCALE` units. Every arithmetic step is
//! pinned by a specification function, so a result is a mathematical function
//! of the input series and the frequency alone.

pub mod fixed;
pub mod trig;
pub mod series;
pub mod integrate;
pub mod sweep;
