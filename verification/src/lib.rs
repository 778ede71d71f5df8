//! Core of a selective forwarding unit.
pub mod bits;
pub mod buffer;
pub mod controllers;
pub mod packet;
pub mod peer;
pub mod reference;
pub mod registry;
pub mod rtc;
pub mod session;
pub mod signaling;
pub mod stats;
pub mod text;
pub mod track;
pub mod turn;
