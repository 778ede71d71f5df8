pub mod central;
pub mod negotiation;
pub mod peer;
pub mod publisher;
pub mod pubsub;
pub mod subscriber;
