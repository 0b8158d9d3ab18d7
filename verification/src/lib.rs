//! Document sanitization core: a trust-boundary codec for streams of
//! rendered page pixels, a reassembler that turns those pages into a
//! minimal image-only PDF, and the decision logic that sequences a full
//! conversion with ordered failure propagation.

pub mod codec;
pub mod error;
pub mod page;
pub mod pdf;
pub mod pipeline;
