//! Decoding of interleaved 16-bit PCM capture buffers into audio frames, and
//! serialisation of a frame sequence into a canonical 44-byte-header WAV file.

pub mod frame;
pub mod wav;
pub mod round_trip;
pub mod capture;
