//! Audioscope: the integer and buffering logic behind a perceptual audio
//! visualiser, verified with Verus.
//!
//! The floating-point signal processing (FFT, filters, angles) and the audio
//! and window I/O live in the application around this library; the library
//! holds what decides where samples go, which frames are drawn, and which
//! configurations the pipeline can run with.
pub mod settings;
pub mod window;
pub mod frames;
pub mod taps;
pub mod render;
pub mod capture;
