//! Shared packet, frame, control, codec and statistics types.

pub mod codec;
pub mod control;
pub mod frame;
pub mod packet;
pub mod stats;
pub mod wire;

use vstd::prelude::*;

verus! {

/// Version carried by every media packet header and control envelope.
pub const PROTOCOL_VERSION: u8 = 1;

} // verus!
