//! Streaming geometry for a phosphor-trail stereo oscilloscope: a bounded
//! sample queue, the conversion of sample frames into line segments, their
//! binning into a coarse tile grid under a size budget, the tile directory
//! that indexes the flattened buckets, and the ping-pong protocol of the
//! decay surfaces.

pub mod packing;
pub mod segments;
pub mod binner;
pub mod compositor;
pub mod directory;
pub mod driver;
pub mod queue;
pub mod scope;
