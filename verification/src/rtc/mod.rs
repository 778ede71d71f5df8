pub mod config;
pub mod message;
pub mod peer;
pub mod relay;
pub mod room;
