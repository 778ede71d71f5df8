use std::io::Cursor;

use vstd::prelude::*;
use webrtc::sdp::description::session::SessionDescription;

verus! {

/// The version of the session that a description tells about, if it can be read.
pub uninterp spec fn described_version(sdp: Seq<char>) -> Option<u64>;

/// Calls `unmarshal` of `sdp::description::session::SessionDescription`, which reads a session
/// description line by line, and fails when a line is not sound. The version of the session is the
/// third field of its origin.
#[verifier::external_body]
pub(crate) fn read_version(sdp: &str) -> (version: Option<u64>)
    ensures
        version == described_version(sdp@),
{
    let parsed = SessionDescription::unmarshal(&mut Cursor::new(sdp.as_bytes()));
    parsed.ok().map(|description| description.origin.session_version)
}

} // verus!
