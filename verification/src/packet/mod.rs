pub mod atomic_buffer;
pub mod buffer;
pub mod factory;
pub mod nack;
pub mod params;
pub mod parse;
pub mod report;
pub mod rtcp;
pub mod rtp;
pub mod sequence;
pub mod wire;
