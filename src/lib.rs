//! The decisions of a small audio/video player, verified: which streams get
//! a decoder and where each demuxed unit goes, how the audio callback drains
//! decoded frames sample by sample, how video frames are paced by their
//! timestamps, and how the end of the decoder thread ends playback.

pub mod consumer;
pub mod drain;
pub mod driver;
pub mod pacer;
pub mod timing;
