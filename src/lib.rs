//! Decoding of NCW lossless audio containers into integer PCM samples, and
//! the header of the IEEE-float WAV file they are written to.

pub mod bit_reader;
pub mod bytes;
pub mod container;
pub mod decode;
pub mod error;
pub mod frame;
pub mod reconstruct;
pub mod wav;
