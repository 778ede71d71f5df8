pub mod atomic_buffer;
pub mod bucket;
pub mod buffer;
pub mod bytes;
pub mod codec;
pub mod error;
pub mod factory;
pub mod rtcp_reader;
