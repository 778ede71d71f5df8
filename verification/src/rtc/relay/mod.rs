pub mod error;
pub mod peer;
