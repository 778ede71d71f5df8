use vstd::prelude::*;
use webrtc::rtcp::packet::unmarshal;
use webrtc::rtcp::packet::Packet as OutsidePacket;
use webrtc::rtcp::sender_report::SenderReport;

use crate::buffer::bytes::{be16, peek_u16};

verus! {

/// Feedback of a receiver of a track on how it is sent.
pub const TRANSPORT_SPECIFIC_FEEDBACK: u8 = 205;

/// Feedback of a receiver of a track on what is sent.
pub const PAYLOAD_SPECIFIC_FEEDBACK: u8 = 206;

/// Reports that hold blocks of their own.
pub const EXTENDED_REPORT: u8 = 207;

/// What a sender of a track tells about it.
#[derive(Debug, Eq, PartialEq, Clone, Copy, Structural)]
pub enum Report {
    /// When the track was at which timestamp.
    SenderReport { rtp_time: u32, ntp_time: u64 },
    Other,
}

/// How many words follow the header at `at`.
pub open spec fn words_at(raw: Seq<u8>, at: int) -> int {
    be16(raw[at + 2], raw[at + 3])
}

/// Whether a whole packet of the right version starts at `at`.
pub open spec fn starts_packet(raw: Seq<u8>, at: int) -> bool {
    &&& 0 <= at
    &&& at + 4 <= raw.len()
    &&& raw[at] / 0x40 == 2
    &&& at + 4 + words_at(raw, at) * 4 <= raw.len()
}

/// Whether the sizes of the blocks of an extended report can be counted in bytes.
pub open spec fn blocks_fit(raw: Seq<u8>, at: int, end: int) -> bool
    decreases end - at,
{
    at < 0 || at + 4 > end || {
        &&& words_at(raw, at) < 0x4000
        &&& at + 4 + words_at(raw, at) * 4 <= end ==> blocks_fit(
            raw,
            at + 4 + words_at(raw, at) * 4,
            end,
        )
    }
}

/// How many packets the chunk `chunk` tells of, where `left` packets are left to tell of: a run of
/// packets that arrived alike, or a list with one or two bits for each packet.
pub open spec fn told_by(chunk: int, left: int) -> int {
    if chunk < 0x8000 {
        if chunk % 0x2000 < left {
            chunk % 0x2000
        } else {
            left
        }
    } else if chunk < 0xC000 {
        14
    } else {
        7
    }
}

/// Whether the packets that the chunks from `at` on tell of can be counted in 16 bits, where `told`
/// of `count` packets were told of before. There are no chunks in the last two bytes.
pub open spec fn arrivals_fit(raw: Seq<u8>, at: int, end: int, told: int, count: int) -> bool
    decreases end - at,
{
    told >= count || at + 2 >= end || {
        let more = told_by(be16(raw[at], raw[at + 1]), count - told);
        &&& told + more <= 0xFFFF
        &&& arrivals_fit(raw, at + 2, end, told + more, count)
    }
}

/// Whether the fields that the packet at `at` announces are within the packet.
pub open spec fn fields_fit(raw: Seq<u8>, at: int) -> bool {
    let format = raw[at] % 0x20;
    let kind = raw[at + 1];
    let words = words_at(raw, at);
    if kind == TRANSPORT_SPECIFIC_FEEDBACK && format == 1 {
        // Packets that were lost
        words == 0 || 2 <= words < 0x4000
    } else if kind == TRANSPORT_SPECIFIC_FEEDBACK && format == 15 {
        // When packets arrived
        words < 4 || words < 0xFFFF && arrivals_fit(
            raw,
            at + 20,
            at + 4 + words * 4,
            0,
            be16(raw[at + 14], raw[at + 15]),
        )
    } else if kind == PAYLOAD_SPECIFIC_FEEDBACK && format == 4 {
        // A request for a key frame
        words == 0 || 2 <= words < 0x4000 && words % 2 == 0
    } else if kind == PAYLOAD_SPECIFIC_FEEDBACK && format == 15 {
        // The bitrate that can be received
        words < 4 || raw[at + 16] <= words - 4
    } else if kind == EXTENDED_REPORT {
        words == 0 || blocks_fit(raw, at + 8, at + 4 + words * 4)
    } else {
        true
    }
}

/// Whether the fields of the packets from `at` on are within them, up to the first one that is not
/// a packet.
pub open spec fn packets_fit(raw: Seq<u8>, at: int) -> bool
    decreases raw.len() - at,
{
    starts_packet(raw, at) ==> {
        &&& fields_fit(raw, at)
        &&& packets_fit(raw, at + 4 + words_at(raw, at) * 4)
    }
}

/// The RTCP packets that the bytes spell, if they do.
pub uninterp spec fn reports_in(raw: Seq<u8>) -> Option<Seq<Report>>;

/// Calls `rtcp::packet::unmarshal`, which reads RTCP packets one after the other, and fails when
/// there is none or one of them is not sound. It panics when a packet announces more than it holds,
/// or a size or a number of packets that cannot be counted in 16 bits.
#[verifier::external_body]
fn unmarshal_reports(raw: &[u8]) -> (res: Option<Vec<Report>>)
    requires
        packets_fit(raw@, 0),
    ensures
        match res {
            None => reports_in(raw@) is None,
            Some(reports) => reports_in(raw@) == Some(reports@) && reports@.len() > 0,
        },
{
    let own = |p: Box<dyn OutsidePacket + Send + Sync>| {
        match p.as_any().downcast_ref::<SenderReport>() {
            Some(r) => Report::SenderReport { rtp_time: r.rtp_time, ntp_time: r.ntp_time },
            None => Report::Other,
        }
    };
    match unmarshal(&mut &raw[..]) {
        Err(_) => None,
        Ok(packets) => Some(packets.into_iter().map(own).collect()),
    }
}

fn check_blocks(raw: &[u8], start: usize, end: usize) -> (fit: bool)
    requires
        end <= raw@.len(),
    ensures
        fit == blocks_fit(raw@, start as int, end as int),
{
    let total: usize = raw.len();
    let mut at: usize = start;
    while at <= end && end - at >= 4
        invariant
            end <= total == raw@.len(),
            blocks_fit(raw@, start as int, end as int) == blocks_fit(raw@, at as int, end as int),
        decreases end - at,
    {
        let words: usize = peek_u16(raw, at + 2) as usize;
        if words >= 0x4000 {
            return false;
        }
        if (end - at - 4) / 4 < words {
            return true;
        }
        at = at + 4 + words * 4;
    }
    true
}

fn check_arrivals(raw: &[u8], start: usize, end: usize, count: u16) -> (fit: bool)
    requires
        start <= end <= raw@.len(),
    ensures
        fit == arrivals_fit(raw@, start as int, end as int, 0, count as int),
{
    let total: usize = raw.len();
    let mut at: usize = start;
    let mut told: u16 = 0;
    while told < count && end - at > 2
        invariant
            at <= end <= total == raw@.len(),
            arrivals_fit(raw@, start as int, end as int, 0, count as int) == arrivals_fit(
                raw@,
                at as int,
                end as int,
                told as int,
                count as int,
            ),
        decreases end - at,
    {
        let chunk: u16 = peek_u16(raw, at);
        let left: u16 = count - told;
        let more: u16 = if chunk < 0x8000 {
            if chunk % 0x2000 < left {
                chunk % 0x2000
            } else {
                left
            }
        } else if chunk < 0xC000 {
            14
        } else {
            7
        };
        if more > 0xFFFF - told {
            return false;
        }
        told = told + more;
        at = at + 2;
    }
    true
}

fn check_fields(raw: &[u8], at: usize) -> (fit: bool)
    requires
        starts_packet(raw@, at as int),
    ensures
        fit == fields_fit(raw@, at as int),
{
    let total: usize = raw.len();
    let format: u8 = raw[at] % 0x20;
    let kind: u8 = raw[at + 1];
    let words: usize = peek_u16(raw, at + 2) as usize;
    if kind == TRANSPORT_SPECIFIC_FEEDBACK && format == 1 {
        words == 0 || 2 <= words && words < 0x4000
    } else if kind == TRANSPORT_SPECIFIC_FEEDBACK && format == 15 {
        words < 4 || words < 0xFFFF && check_arrivals(
            raw,
            at + 20,
            at + 4 + words * 4,
            peek_u16(raw, at + 14),
        )
    } else if kind == PAYLOAD_SPECIFIC_FEEDBACK && format == 4 {
        words == 0 || 2 <= words && words < 0x4000 && words % 2 == 0
    } else if kind == PAYLOAD_SPECIFIC_FEEDBACK && format == 15 {
        words < 4 || raw[at + 16] as usize <= words - 4
    } else if kind == EXTENDED_REPORT {
        words == 0 || check_blocks(raw, at + 8, at + 4 + words * 4)
    } else {
        true
    }
}

/// Tests whether the fields of the packets are within them.
pub fn check_reports(raw: &[u8]) -> (fit: bool)
    ensures
        fit == packets_fit(raw@, 0),
{
    let total: usize = raw.len();
    let mut at: usize = 0;
    while total - at >= 4 && raw[at] / 0x40 == 2
        invariant
            at <= total == raw@.len(),
            packets_fit(raw@, 0) == packets_fit(raw@, at as int),
        decreases total - at,
    {
        let words: usize = peek_u16(raw, at + 2) as usize;
        if (total - at - 4) / 4 < words {
            return true;
        }
        if !check_fields(raw, at) {
            return false;
        }
        at = at + 4 + words * 4;
    }
    true
}

/// The RTCP packets that the bytes spell. Bytes of a packet that announces more than it holds spell
/// none.
pub open spec fn readable_reports(raw: Seq<u8>) -> Option<Seq<Report>> {
    if packets_fit(raw, 0) {
        reports_in(raw)
    } else {
        None
    }
}

/// Reads RTCP packets.
pub fn parse_reports(raw: &[u8]) -> (res: Option<Vec<Report>>)
    ensures
        match res {
            None => readable_reports(raw@) is None,
            Some(reports) => readable_reports(raw@) == Some(reports@) && reports@.len() > 0,
        },
{
    if check_reports(raw) {
        unmarshal_reports(raw)
    } else {
        None
    }
}

/// Every packet of a batch whose fields fit has them within itself: a request for packets that were
/// lost names the one who asks and the one who is asked, and a bitrate is told for no more tracks
/// than are named.
pub proof fn law_fields_that_fit_are_within_their_packet(raw: Seq<u8>, at: int)
    requires
        starts_packet(raw, at),
        packets_fit(raw, at),
        words_at(raw, at) > 0,
    ensures
        raw[at + 1] == 205 && raw[at] % 32 == 1 ==> words_at(raw, at) >= 2,
        raw[at + 1] == 206 && raw[at] % 32 == 4 ==> words_at(raw, at) >= 2 && words_at(raw, at) % 2
            == 0,
        raw[at + 1] == 206 && raw[at] % 32 == 15 && words_at(raw, at) >= 4 ==> at + 20 + 4 * raw[at
            + 16] <= at + 4 + 4 * words_at(raw, at),
        packets_fit(raw, at + 4 + 4 * words_at(raw, at)),
{
}

/// A batch of sender reports and of receiver reports fits, whatever they hold.
pub proof fn law_plain_reports_fit(raw: Seq<u8>, at: int)
    requires
        forall|i: int|
            #![trigger raw[i]]
            at <= i < raw.len() && starts_packet(raw, i - 1) ==> raw[i] < 205 || raw[i] > 207,
    ensures
        packets_fit(raw, at),
    decreases raw.len() - at,
{
    if starts_packet(raw, at) {
        assert(raw[at + 1] < 205 || raw[at + 1] > 207);
        law_plain_reports_fit(raw, at + 4 + words_at(raw, at) * 4);
    }
}

/// A chunk never tells of more packets than are left but for a list of bits, which tells of as many as
/// it has room for.
pub proof fn law_chunk_tells_of_packets_that_are_left(chunk: int, left: int)
    requires
        0 <= chunk <= 0xFFFF,
        0 <= left,
    ensures
        chunk < 0x8000 ==> told_by(chunk, left) <= left && told_by(chunk, left) < 0x2000,
        chunk >= 0x8000 ==> told_by(chunk, left) * if chunk < 0xC000 {
            1int
        } else {
            2int
        } == 14,
{
}

/// What is read of bytes is what they spell, where the fields of every packet are within it, and
/// nothing else.
pub proof fn law_only_packets_that_fit_are_read(raw: Seq<u8>)
    ensures
        packets_fit(raw, 0) ==> readable_reports(raw) == reports_in(raw),
        !packets_fit(raw, 0) ==> readable_reports(raw) is None,
{
}

} // verus!
