//! The desktop client's media pipeline: capture queues, synthetic encoders
//! and decoders, reassembly, playback, remote input and statistics.

pub mod app;
pub mod audio;
pub mod audio_capture;
pub mod capture;
pub mod decode;
pub mod encode;
pub mod playback;
pub mod remote_input;
pub mod stats;
