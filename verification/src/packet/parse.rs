use vstd::prelude::*;
use webrtc::rtp::header::Extension as RtpExtension;
use webrtc::rtp::packet::Packet as RtpPacket;
use webrtc::util::Unmarshal;

use crate::buffer::bytes::{be16, peek_u16};
use crate::packet::rtp::{Extension, Header, Packet};

verus! {

/// Header extensions with a size and an id in one byte.
pub const EXTENSION_PROFILE_ONE_BYTE: u16 = 0xBEDE;

/// Header extensions with a size and an id in a byte each.
pub const EXTENSION_PROFILE_TWO_BYTE: u16 = 0x1000;

/// The elements of a header extension, each with its id.
pub type Elements = Seq<(u8, Seq<u8>)>;

/// What a packet holds: the version, the padding, extension and marker bits, the payload type, the
/// sequence number, the timestamp, the SSRC, the contributing sources, the extension profile, the
/// extension elements, their padding, and the payload.
pub type PacketFields = (
    (u8, bool, bool, bool, u8),
    (u16, u32, u32, Seq<u32>),
    (u16, Elements, usize),
    Seq<u8>,
);

/// The elements of a header extension.
pub open spec fn elements_of(extensions: Seq<Extension>) -> Elements {
    extensions.map_values(|extension: Extension| (extension.id, extension.payload@))
}

/// What a packet holds.
pub open spec fn fields_of(packet: Packet) -> PacketFields {
    let header = packet.header;
    (
        (header.version, header.padding, header.extension, header.marker, header.payload_type),
        (header.sequence_number, header.timestamp, header.ssrc, header.csrc@),
        (header.extension_profile, elements_of(header.extensions@), header.extensions_padding),
        packet.payload@,
    )
}

/// Where the extension of a packet starts.
pub open spec fn extension_start(raw: Seq<u8>) -> int {
    12 + (raw[0] % 0x10) * 4
}

/// Whether the packet has a whole extension.
pub open spec fn has_extension(raw: Seq<u8>) -> bool {
    &&& raw.len() >= 4
    &&& raw[0] & 0x10 != 0
    &&& raw.len() >= extension_start(raw) + 4
    &&& raw.len() >= extension_end(raw)
}

/// Where the extension of a packet ends.
pub open spec fn extension_end(raw: Seq<u8>) -> int {
    let start = extension_start(raw);
    start + 4 + be16(raw[start + 2], raw[start + 3]) * 4
}

/// Whether the one byte elements from `at` on are within the packet.
pub open spec fn one_byte_elements_fit(raw: Seq<u8>, at: int, end: int) -> bool
    decreases raw.len() - at,
{
    if at < 0 || at >= end || at >= raw.len() {
        true
    } else if raw[at] == 0 {
        one_byte_elements_fit(raw, at + 1, end)
    } else if raw[at] / 0x10 == 0xF {
        true
    } else {
        let next = at + 2 + (raw[at] % 0x10);
        next <= raw.len() && one_byte_elements_fit(raw, next, end)
    }
}

/// Whether the two byte elements from `at` on are within the packet.
pub open spec fn two_byte_elements_fit(raw: Seq<u8>, at: int, end: int) -> bool
    decreases raw.len() - at,
{
    if at < 0 || at >= end || at >= raw.len() {
        true
    } else if raw[at] == 0 {
        two_byte_elements_fit(raw, at + 1, end)
    } else {
        &&& at + 2 <= raw.len()
        &&& at + 2 + raw[at + 1] <= raw.len()
        &&& two_byte_elements_fit(raw, at + 2 + raw[at + 1], end)
    }
}

/// Whether the extension elements of a packet are within the packet.
pub open spec fn elements_fit(raw: Seq<u8>) -> bool {
    has_extension(raw) ==> {
        let start = extension_start(raw);
        let profile = be16(raw[start], raw[start + 1]);
        &&& profile == EXTENSION_PROFILE_ONE_BYTE ==> one_byte_elements_fit(
            raw,
            start + 4,
            extension_end(raw),
        )
        &&& profile == EXTENSION_PROFILE_TWO_BYTE ==> two_byte_elements_fit(
            raw,
            start + 4,
            extension_end(raw),
        )
    }
}

/// The packet that the bytes spell, if they do.
pub uninterp spec fn parsed_packet(raw: Seq<u8>) -> Option<PacketFields>;

/// Calls `unmarshal` of `rtp::packet::Packet`, which reads the header, its extensions and the
/// payload, and fails when the bytes are too few. It panics when an extension element reaches
/// beyond the end of the bytes.
#[verifier::external_body]
pub(crate) fn parse_packet(raw: &[u8]) -> (res: Option<Packet>)
    requires
        elements_fit(raw@),
    ensures
        match res {
            None => parsed_packet(raw@) is None,
            Some(packet) => parsed_packet(raw@) == Some(fields_of(packet)),
        },
{
    match RtpPacket::unmarshal(&mut &raw[..]) {
        Err(_) => None,
        Ok(RtpPacket { header: h, payload }) => {
            let own = |e: RtpExtension| Extension { id: e.id, payload: e.payload.to_vec() };
            let extensions = h.extensions.into_iter().map(own).collect();
            let header = Header {
                version: h.version, padding: h.padding, extension: h.extension, marker: h.marker,
                payload_type: h.payload_type, sequence_number: h.sequence_number,
                timestamp: h.timestamp, ssrc: h.ssrc, csrc: h.csrc, extensions,
                extension_profile: h.extension_profile, extensions_padding: h.extensions_padding,
            };
            Some(Packet { header, payload: payload.to_vec() })
        },
    }
}

/// Tests whether the extension elements of a packet are within the packet.
pub fn check_elements(raw: &[u8]) -> (fit: bool)
    ensures
        fit == elements_fit(raw@),
{
    let total: usize = raw.len();
    if total < 4 || raw[0] & 0x10 == 0 {
        return true;
    }
    let start: usize = 12 + (raw[0] % 0x10) as usize * 4;
    if total < start + 4 {
        return true;
    }
    let end: usize = start + 4 + (peek_u16(raw, start + 2) as usize) * 4;
    if total < end {
        return true;
    }
    let profile: u16 = peek_u16(raw, start);
    if profile == EXTENSION_PROFILE_ONE_BYTE {
        check_one_byte_elements(raw, start + 4, end)
    } else if profile == EXTENSION_PROFILE_TWO_BYTE {
        check_two_byte_elements(raw, start + 4, end)
    } else {
        true
    }
}

fn check_one_byte_elements(raw: &[u8], start: usize, end: usize) -> (fit: bool)
    requires
        end <= raw@.len(),
    ensures
        fit == one_byte_elements_fit(raw@, start as int, end as int),
{
    let total: usize = raw.len();
    let mut at: usize = start;
    while at < end
        invariant
            end <= total == raw@.len(),
            one_byte_elements_fit(raw@, start as int, end as int) == one_byte_elements_fit(
                raw@,
                at as int,
                end as int,
            ),
        decreases total - at,
    {
        let b: u8 = raw[at];
        if b == 0 {
            at = at + 1;
        } else if b / 0x10 == 0xF {
            return true;
        } else {
            let size: usize = (b % 0x10) as usize + 2;
            if total - at < size {
                return false;
            }
            at = at + size;
        }
    }
    true
}

fn check_two_byte_elements(raw: &[u8], start: usize, end: usize) -> (fit: bool)
    requires
        end <= raw@.len(),
    ensures
        fit == two_byte_elements_fit(raw@, start as int, end as int),
{
    let total: usize = raw.len();
    let mut at: usize = start;
    while at < end
        invariant
            end <= total == raw@.len(),
            two_byte_elements_fit(raw@, start as int, end as int) == two_byte_elements_fit(
                raw@,
                at as int,
                end as int,
            ),
        decreases total - at,
    {
        if raw[at] == 0 {
            at = at + 1;
        } else {
            if total - at < 2 {
                return false;
            }
            let size: usize = raw[at + 1] as usize + 2;
            if total - at < size {
                return false;
            }
            at = at + size;
        }
    }
    true
}

/// Elements fit just where each of them ends within the packet, and so do those that follow; zeros
/// between them are passed over. An element tells its size in the low half of one byte, or in a byte
/// of its own.
pub proof fn law_elements_that_fit_end_within_the_packet(raw: Seq<u8>, at: int, end: int)
    requires
        0 <= at < end <= raw.len(),
    ensures
        raw[at] == 0 ==> (one_byte_elements_fit(raw, at, end) <==> one_byte_elements_fit(
            raw,
            at + 1,
            end,
        )) && (two_byte_elements_fit(raw, at, end) <==> two_byte_elements_fit(raw, at + 1, end)),
        0 < raw[at] < 0xF0 ==> (one_byte_elements_fit(raw, at, end) <==> at + 2 + raw[at] % 16
            <= raw.len() && one_byte_elements_fit(raw, at + 2 + raw[at] % 16, end)),
        raw[at] >= 0xF0 ==> one_byte_elements_fit(raw, at, end),
        raw[at] > 0 ==> (two_byte_elements_fit(raw, at, end) <==> at + 1 < raw.len() && at + 2
            + raw[at + 1] <= raw.len() && two_byte_elements_fit(raw, at + 2 + raw[at + 1], end)),
        one_byte_elements_fit(raw, end, end),
        two_byte_elements_fit(raw, end, end),
{
}

/// The extension stands behind the contributing sources, four bytes each, and is as many words long as
/// its second half of a word says.
pub proof fn law_extension_stands_behind_the_sources(raw: Seq<u8>)
    requires
        raw.len() >= 1,
    ensures
        extension_start(raw) == 12 + 4 * (raw[0] % 16),
        has_extension(raw) ==> {
            let start = 12 + 4 * (raw[0] % 16);
            &&& extension_end(raw) == start + 4 + 4 * (256 * raw[start + 2] + raw[start + 3])
            &&& start + 4 <= extension_end(raw) <= raw.len()
        },
{
}

/// A packet without an extension has no elements that could not fit.
pub proof fn law_packet_without_extension_fits(raw: Seq<u8>)
    requires
        raw.len() < 16 || raw[0] & 0x10 == 0,
    ensures
        elements_fit(raw),
{
}

} // verus!
