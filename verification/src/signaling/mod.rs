pub mod client;
pub mod packets;
pub mod server;
