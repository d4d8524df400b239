//! Verified integer core of the RayDrone granular drone engine: the
//! pseudo-random generator, the voice pool, degree selection, just-intonation
//! voicings, the on-screen piano and MIDI note masks, built-in scene ids, the
//! ambient constellation's counts, and the index arithmetic of the delay lines
//! and analysis bins.

pub mod prng;
pub mod voices;
pub mod music;
pub mod degrees;
pub mod piano;
pub mod scenes;
pub mod bins;
pub mod lab;
pub mod delay;
pub mod ambient;
