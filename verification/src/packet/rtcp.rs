use vstd::prelude::*;

verus! {

/// Forwards the RTCP packets of a track to whoever has registered for them.
pub struct RTCPForwarder {
    pub ssrc: u32,
    /// Whether someone has registered.
    pub on_packets: bool,
}

impl RTCPForwarder {
    pub fn new(ssrc: u32) -> (forwarder: Self)
        ensures
            forwarder == (RTCPForwarder { ssrc, on_packets: false }),
    {
        Self { ssrc, on_packets: false }
    }

    /// Takes note that someone has registered for the packets of [Self::send_packets].
    pub fn set_on_packets(&mut self)
        ensures
            *final(self) == (RTCPForwarder { on_packets: true, ..*old(self) }),
    {
        self.on_packets = true;
    }

    /// The packets to hand on. They are lost where nobody has registered.
    pub fn send_packets<P>(&self, packets: Vec<P>) -> (res: Option<Vec<P>>)
        ensures
            res == if self.on_packets {
                Some(packets)
            } else {
                None
            },
    {
        if self.on_packets {
            Some(packets)
        } else {
            None
        }
    }
}

} // verus!
