use vstd::prelude::*;

use crate::buffer::error::{BufferError, Result};
use crate::packet::report::{parse_reports, readable_reports, Report};

verus! {

/// Reads the RTCP packets of a track for whoever has registered for them.
pub struct RTCPReader {
    /// Whether someone has registered.
    pub on_packets: bool,
}

/// The packets that were read.
pub struct ReadReports {
    /// How many there are.
    pub len: usize,
    /// The packets for whoever has registered.
    pub packets: Option<Vec<Report>>,
}

impl RTCPReader {
    pub fn new() -> (reader: Self)
        ensures
            !reader.on_packets,
    {
        Self { on_packets: false }
    }

    /// Takes note that someone has registered for the packets of [Self::write].
    pub fn set_on_packets(&mut self)
        ensures
            final(self).on_packets,
    {
        self.on_packets = true;
    }

    /// Hands on a batch of packets.
    pub fn hand_on(&self, packets: Vec<Report>) -> (read: ReadReports)
        ensures
            read.len == packets@.len(),
            read.packets == if self.on_packets {
                Some(packets)
            } else {
                None
            },
    {
        let len: usize = packets.len();
        if self.on_packets {
            ReadReports { len, packets: Some(packets) }
        } else {
            ReadReports { len, packets: None }
        }
    }

    /// Unmarshal given raw data into RTCP packets. Every batch of packets is for whoever has registered.
    /// # Returns
    /// - `Ok` - Length of packets resulted from unmarshal, and the packets
    /// - `Err(BufferError::ErrRTCP)` - Error trying to read the data.
    pub fn write(&self, data: &[u8]) -> (res: Result<ReadReports>)
        ensures
            match readable_reports(data@) {
                None => res is Err && res->Err_0 == BufferError::ErrRTCP,
                Some(reports) => {
                    &&& res matches Ok(read)
                    &&& read.len == reports.len()
                    &&& read.packets is Some == self.on_packets
                    &&& read.packets matches Some(packets) ==> packets@ == reports
                },
            },
    {
        match parse_reports(data) {
            None => Err(BufferError::ErrRTCP),
            Some(packets) => Ok(self.hand_on(packets)),
        }
    }
}

} // verus!
