pub mod answer;
pub mod api;
pub mod error;
pub mod ice;
pub mod negotiation;
pub mod sdp;
pub mod streams;
pub mod subscriber;
