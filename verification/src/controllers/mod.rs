pub mod central;
pub mod consumer;
pub mod error;
pub mod pubsub;
