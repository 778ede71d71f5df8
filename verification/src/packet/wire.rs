use bytes::Bytes;
use vstd::prelude::*;
use webrtc::rtp::header::{Extension as RtpExtension, Header as RtpHeader};
use webrtc::rtp::packet::Packet as RtpPacket;
use webrtc::util::Marshal;

use crate::buffer::bucket::rtp_sn;
use crate::packet::parse::{
    elements_fit, elements_of, fields_of, parsed_packet, Elements, PacketFields,
    EXTENSION_PROFILE_ONE_BYTE, EXTENSION_PROFILE_TWO_BYTE,
};
use crate::packet::rtp::{Extension, Packet};

verus! {

/// How many contributing sources a header has room for.
pub const MAX_SOURCES: usize = 15;

/// More bytes than a packet, or a part of it, can have.
pub const PACKET_LIMIT: usize = 0xFFFD;

/// The bytes in front of the payload of an extension element.
pub open spec fn element_head(profile: u16) -> nat {
    if profile == EXTENSION_PROFILE_ONE_BYTE {
        1
    } else if profile == EXTENSION_PROFILE_TWO_BYTE {
        2
    } else {
        0
    }
}

/// The bytes of extension elements, with what is in front of each.
pub open spec fn elements_size(elements: Elements, profile: u16) -> nat
    decreases elements.len(),
{
    if elements.len() == 0 {
        0
    } else {
        elements_size(elements.drop_last(), profile) + element_head(profile)
            + elements.last().1.len()
    }
}

/// Whether each extension element has a size that one byte next to its id can tell.
pub open spec fn one_byte_sizes(elements: Elements) -> bool {
    forall|i: int| 0 <= i < elements.len() ==> 1 <= (#[trigger] elements[i]).1.len() <= 16
}

/// Whether the parts of a packet have sizes that a packet can have.
pub open spec fn has_packet_sizes(fields: PacketFields) -> bool {
    let ((_, _, extension, _, _), (_, _, _, csrc), (profile, elements, padding), payload) = fields;
    &&& csrc.len() <= MAX_SOURCES
    &&& payload.len() < PACKET_LIMIT
    &&& extension ==> {
        &&& padding < PACKET_LIMIT
        &&& elements_size(elements, profile) < PACKET_LIMIT
        &&& profile == EXTENSION_PROFILE_ONE_BYTE ==> one_byte_sizes(elements)
    }
}

/// Whether the packet has no padding and no header extension, and its version and payload type have
/// room in the header.
pub open spec fn is_plain(fields: PacketFields) -> bool {
    let ((version, padding, extension, _, payload_type), _, rest, _) = fields;
    &&& version < 4
    &&& payload_type < 0x80
    &&& !padding
    &&& !extension
    &&& rest == (0u16, Seq::<(u8, Seq<u8>)>::empty(), 0usize)
}

/// The bytes of a packet, if it can be written.
pub uninterp spec fn marshalled(fields: PacketFields) -> Option<Seq<u8>>;

/// The bytes that are sent of a packet, if it can be written.
pub open spec fn wire_of(fields: PacketFields) -> Option<Seq<u8>> {
    if has_packet_sizes(fields) {
        marshalled(fields)
    } else {
        None
    }
}

/// What the bytes of a packet say of it: its sequence number, and, of a plain packet, all that it
/// holds.
pub open spec fn spells(wire: Option<Seq<u8>>, fields: PacketFields) -> bool {
    &&& wire matches Some(bytes) ==> bytes.len() >= 12 && rtp_sn(bytes) == fields.1.0
    &&& is_plain(fields) && has_packet_sizes(fields) ==> {
        &&& wire matches Some(bytes)
        &&& bytes.len() == 12 + 4 * fields.1.3.len() + fields.3.len()
        &&& elements_fit(bytes)
        &&& parsed_packet(bytes) == Some(fields)
    }
}

/// The bytes, if there are any.
pub open spec fn bytes_of(wire: Option<Vec<u8>>) -> Option<Seq<u8>> {
    match wire {
        Some(bytes) => Some(bytes@),
        None => None,
    }
}

/// Calls `marshal` of `rtp::packet::Packet`, which writes the header, with the sequence number in its
/// third and fourth byte, then the extensions and the payload. It fails when the extension does not
/// have the padding that it announces, or cannot have its profile. Of a plain packet it writes what
/// `unmarshal` reads back. It panics when a one byte element is empty, and when the sizes add up to
/// more than can be counted.
#[verifier::external_body]
fn marshal_packet(packet: &Packet) -> (wire: Option<Vec<u8>>)
    requires
        has_packet_sizes(fields_of(*packet)),
    ensures
        bytes_of(wire) == marshalled(fields_of(*packet)),
        spells(bytes_of(wire), fields_of(*packet)),
{
    let h = &packet.header;
    let outer = |e: &Extension| RtpExtension { id: e.id, payload: Bytes::copy_from_slice(&e.payload) };
    let extensions = h.extensions.iter().map(outer).collect();
    let header = RtpHeader {
        version: h.version, padding: h.padding, extension: h.extension, marker: h.marker,
        payload_type: h.payload_type, sequence_number: h.sequence_number,
        timestamp: h.timestamp, ssrc: h.ssrc, csrc: h.csrc.clone(), extensions,
        extension_profile: h.extension_profile, extensions_padding: h.extensions_padding,
    };
    let payload = Bytes::copy_from_slice(&packet.payload);
    RtpPacket { header, payload }.marshal().ok().map(|bytes| bytes.to_vec())
}

/// Tests whether the extension elements have sizes that a packet can have.
fn check_elements_sizes(extensions: &Vec<Extension>, profile: u16) -> (fit: bool)
    ensures
        fit == (elements_size(elements_of(extensions@), profile) < PACKET_LIMIT && (profile
            == EXTENSION_PROFILE_ONE_BYTE ==> one_byte_sizes(elements_of(extensions@)))),
{
    let ghost elements = elements_of(extensions@);
    let head: usize = if profile == EXTENSION_PROFILE_ONE_BYTE {
        1
    } else if profile == EXTENSION_PROFILE_TWO_BYTE {
        2
    } else {
        0
    };
    let mut size: usize = 0;
    let mut i: usize = 0;
    assert(elements.take(0) =~= seq![]);
    while i < extensions.len()
        invariant
            elements == elements_of(extensions@),
            head == element_head(profile),
            i <= extensions@.len(),
            size == elements_size(elements.take(i as int), profile),
            size < PACKET_LIMIT,
            profile == EXTENSION_PROFILE_ONE_BYTE ==> one_byte_sizes(elements.take(i as int)),
        decreases extensions@.len() - i,
    {
        let len: usize = extensions[i].payload.len();
        proof {
            let wider = elements.take(i + 1);
            assert(wider.drop_last() =~= elements.take(i as int));
            assert(wider.last() == elements[i as int]);
            assert(elements[i as int].1.len() == len);
            lemma_elements_size_grows(elements, profile, i + 1);
        }
        if profile == EXTENSION_PROFILE_ONE_BYTE && (len == 0 || len > 16) {
            assert(!one_byte_sizes(elements));
            return false;
        }
        if len >= PACKET_LIMIT || size + head + len >= PACKET_LIMIT {
            return false;
        }
        size = size + head + len;
        i = i + 1;
    }
    assert(elements.take(i as int) =~= elements);
    true
}

/// More elements have no fewer bytes.
proof fn lemma_elements_size_grows(elements: Elements, profile: u16, upto: int)
    requires
        0 <= upto <= elements.len(),
    ensures
        elements_size(elements.take(upto), profile) <= elements_size(elements, profile),
    decreases elements.len() - upto,
{
    if upto < elements.len() {
        lemma_elements_size_grows(elements, profile, upto + 1);
        assert(elements.take(upto + 1).drop_last() =~= elements.take(upto));
    } else {
        assert(elements.take(upto) =~= elements);
    }
}

/// Writes a packet as it is sent, if it can be written.
pub(crate) fn to_wire(packet: &Packet) -> (wire: Option<Vec<u8>>)
    ensures
        bytes_of(wire) == wire_of(fields_of(*packet)),
        spells(bytes_of(wire), fields_of(*packet)),
{
    let header = &packet.header;
    if header.csrc.len() > MAX_SOURCES || packet.payload.len() >= PACKET_LIMIT {
        return None;
    }
    if header.extension {
        if header.extensions_padding >= PACKET_LIMIT {
            return None;
        }
        if !check_elements_sizes(&header.extensions, header.extension_profile) {
            return None;
        }
    }
    marshal_packet(packet)
}

/// Each extension element is written with what its profile puts in front of it: a byte for its id and
/// its size together, a byte for each of them, or nothing.
pub proof fn law_elements_are_written_with_their_heads(elements: Elements, profile: u16)
    ensures
        profile != EXTENSION_PROFILE_ONE_BYTE && profile != EXTENSION_PROFILE_TWO_BYTE ==> {
            &&& elements_size(elements, EXTENSION_PROFILE_ONE_BYTE) == elements_size(
                elements,
                profile,
            ) + elements.len()
            &&& elements_size(elements, EXTENSION_PROFILE_TWO_BYTE) == elements_size(
                elements,
                profile,
            ) + 2 * elements.len()
        },
        forall|i: int|
            0 <= i < elements.len() ==> elements_size(elements, profile) >= (
            #[trigger] elements[i]).1.len(),
    decreases elements.len(),
{
    if elements.len() > 0 {
        let rest = elements.drop_last();
        law_elements_are_written_with_their_heads(rest, profile);
        assert forall|i: int| 0 <= i < elements.len() implies elements_size(elements, profile) >= (
        #[trigger] elements[i]).1.len() by {
            if i < rest.len() {
                assert(rest[i] == elements[i]);
            }
        }
    }
}

/// A plain packet is sent as it is: what is read of its bytes is what it holds.
pub proof fn law_plain_packet_is_read_back(wire: Option<Seq<u8>>, fields: PacketFields)
    requires
        spells(wire, fields),
        is_plain(fields),
        has_packet_sizes(fields),
    ensures
        wire is Some,
        parsed_packet(wire->0) == Some(fields),
        rtp_sn(wire->0) == fields.1.0,
        wire->0.len() == 12 + 4 * fields.1.3.len() + fields.3.len(),
{
}

/// A packet whose parts have sizes that a packet can have is written as it is, and any other is not.
pub proof fn law_packet_of_packet_sizes_is_written(fields: PacketFields)
    ensures
        has_packet_sizes(fields) ==> wire_of(fields) == marshalled(fields),
        !has_packet_sizes(fields) ==> wire_of(fields) is None,
        fields.1.3.len() > 15 ==> wire_of(fields) is None,
        fields.3.len() >= 0xFFFD ==> wire_of(fields) is None,
        is_plain(fields) && fields.1.3.len() <= 15 && fields.3.len() < 0xFFFD ==> has_packet_sizes(
            fields,
        ),
{
}

} // verus!
