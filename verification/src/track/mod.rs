pub mod audio_observer;
pub mod downtrack;
pub mod error;
pub mod feedback;
pub mod forward;
pub mod receive;
pub mod receiver;
pub mod router;
pub mod sequencer;
pub mod simulcast;
