//! TeamView core: the media wire protocol, relay room and routing state, and
//! the client-side media pipeline models, each stated and proved with Verus.

pub mod client;
pub mod load_test;
pub mod protocol;
pub mod samples;
pub mod text;
pub mod relay;
