use std::collections::HashMap;
use vstd::prelude::*;

use crate::buffer::atomic_buffer::AtomicBuffer;
use crate::packet::rtcp::RTCPForwarder;

verus! {

/// The buffers of the tracks, by SSRC.
pub struct Factory {
    pub rtp_buffers: HashMap<u32, AtomicBuffer>,
    pub rtcp_readers: HashMap<u32, RTCPForwarder>,
}

/// Creates the buffers of tracks as they are needed.
pub struct AtomicFactory {
    pub factory: Factory,
}

impl AtomicFactory {
    pub fn new() -> (factory: Self)
        ensures
            factory.factory.rtp_buffers@ == Map::<u32, AtomicBuffer>::empty(),
            factory.factory.rtcp_readers@ == Map::<u32, RTCPForwarder>::empty(),
    {
        Self { factory: Factory { rtp_buffers: HashMap::new(), rtcp_readers: HashMap::new() } }
    }

    /// The RTCP forwarder of the track, to change it. Where there is none yet, it is a new one.
    pub fn get_or_new_rtcp_buffer(&mut self, ssrc: u32) -> (res: &mut RTCPForwarder)
        ensures
            *res == if old(self).factory.rtcp_readers@.contains_key(ssrc) {
                old(self).factory.rtcp_readers@[ssrc]
            } else {
                RTCPForwarder { ssrc, on_packets: false }
            },
            final(self).factory.rtcp_readers@ == old(self).factory.rtcp_readers@.insert(
                ssrc,
                *final(res),
            ),
            final(self).factory.rtp_buffers == old(self).factory.rtp_buffers,
    {
        self.factory.rtcp_readers.entry(ssrc).or_insert(RTCPForwarder::new(ssrc))
    }

    /// The buffer of the track, to change it. Where there is none yet, it is a new one.
    pub fn get_or_new_buffer(&mut self, ssrc: u32) -> (res: &mut AtomicBuffer)
        ensures
            if old(self).factory.rtp_buffers@.contains_key(ssrc) {
                *res == old(self).factory.rtp_buffers@[ssrc]
            } else {
                res.is_new(ssrc)
            },
            final(self).factory.rtp_buffers@ == old(self).factory.rtp_buffers@.insert(
                ssrc,
                *final(res),
            ),
            final(self).factory.rtcp_readers == old(self).factory.rtcp_readers,
    {
        self.factory.rtp_buffers.entry(ssrc).or_insert(AtomicBuffer::new(ssrc))
    }
}

} // verus!
