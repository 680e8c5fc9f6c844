//! Native half of a shared-memory video pipeline: a producer publishes BGRA
//! frames into a fixed-layout memory-mapped ring; this library holds the
//! verified logic of the consumer that drains the ring, converts the pixels,
//! reformats the encoded bitstream, and drives the streaming session.

pub mod bitstream;
pub mod bridge;
pub mod convert;
pub mod encoder;
pub mod shared_memory;
