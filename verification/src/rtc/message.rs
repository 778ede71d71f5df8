use vstd::prelude::*;

verus! {

/// What a client wants to receive of a stream.
pub struct RemoteMedia {
    pub stream_id: String,
    pub video: String,
    pub frame_rate: String,
    pub audio: bool,
    pub layers: Option<Vec<String>>,
}

} // verus!
