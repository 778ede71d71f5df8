use vstd::prelude::*;
use webrtc::rtp::extension::audio_level_extension::AudioLevelExtension;
use webrtc::rtp::extension::transport_cc_extension::TransportCcExtension;
use webrtc::util::Unmarshal;

use crate::buffer::bytes::be16;

verus! {

/// An element of an RTP header extension.
pub struct Extension {
    pub id: u8,
    pub payload: Vec<u8>,
}

/// The header of an RTP packet.
pub struct Header {
    pub version: u8,
    pub padding: bool,
    pub extension: bool,
    pub marker: bool,
    pub payload_type: u8,
    pub sequence_number: u16,
    pub timestamp: u32,
    pub ssrc: u32,
    pub csrc: Vec<u32>,
    pub extension_profile: u16,
    pub extensions: Vec<Extension>,
    pub extensions_padding: usize,
}

/// An RTP packet.
pub struct Packet {
    pub header: Header,
    pub payload: Vec<u8>,
}

/// The payload of the first element with the given id.
pub open spec fn find_extension(extensions: Seq<Extension>, id: u8) -> Option<Seq<u8>>
    decreases extensions.len(),
{
    if extensions.len() == 0 {
        None
    } else if extensions[0].id == id {
        Some(extensions[0].payload@)
    } else {
        find_extension(extensions.skip(1), id)
    }
}

impl Header {
    /// The payload of the extension element with the given id, if the header has one.
    pub open spec fn extension_payload(&self, id: u8) -> Option<Seq<u8>> {
        if self.extension {
            find_extension(self.extensions@, id)
        } else {
            None
        }
    }

    /// Looks up an extension element by its id.
    pub fn get_extension(&self, id: u8) -> (res: Option<&Vec<u8>>)
        ensures
            match self.extension_payload(id) {
                None => res is None,
                Some(payload) => res matches Some(found) && found@ == payload,
            },
    {
        if !self.extension {
            return None;
        }
        let mut i: usize = 0;
        assert(self.extensions@.skip(0) =~= self.extensions@);
        while i < self.extensions.len()
            invariant
                self.extension,
                i <= self.extensions@.len(),
                find_extension(self.extensions@, id) == find_extension(
                    self.extensions@.skip(i as int),
                    id,
                ),
            decreases self.extensions@.len() - i,
        {
            if self.extensions[i].id == id {
                return Some(&self.extensions[i].payload);
            }
            assert(self.extensions@.skip(i as int).skip(1) =~= self.extensions@.skip(i + 1));
            i = i + 1;
        }
        None
    }
}

/// Calls `TransportCcExtension::unmarshal`, which reads the sequence number from the first two
/// bytes, the high byte first, and fails when there are fewer.
#[verifier::external_body]
pub(crate) fn read_transport_cc(ext: &[u8]) -> (res: Option<u16>)
    ensures
        res == transport_sequence(ext@),
{
    match TransportCcExtension::unmarshal(&mut &ext[..]) {
        Ok(data) => Some(data.transport_sequence),
        Err(_) => None,
    }
}

/// The sequence number in a transport wide congestion control extension.
pub open spec fn transport_sequence(ext: Seq<u8>) -> Option<u16> {
    if ext.len() < 2 {
        None
    } else {
        Some(be16(ext[0], ext[1]) as u16)
    }
}

/// Calls `AudioLevelExtension::unmarshal`, which reads the voice flag from the top bit of the first
/// byte and the level from its other bits, and fails when there is no byte.
#[verifier::external_body]
pub(crate) fn read_audio_level(ext: &[u8]) -> (res: Option<(bool, u8)>)
    ensures
        res == audio_level(ext@),
{
    match AudioLevelExtension::unmarshal(&mut &ext[..]) {
        Ok(data) => Some((data.voice, data.level)),
        Err(_) => None,
    }
}

/// The voice flag and the level in an audio level extension.
pub open spec fn audio_level(ext: Seq<u8>) -> Option<(bool, u8)> {
    if ext.len() < 1 {
        None
    } else {
        Some((ext[0] & 0x80 != 0, ext[0] & 0x7F))
    }
}

/// The payload of an extension element is that of the first element with the id, in a header that has
/// extensions, and there is none just where no element has the id.
pub proof fn law_extension_is_found_by_its_id(header: Header, id: u8, at: int)
    requires
        header.extension,
        0 <= at < header.extensions@.len(),
        header.extensions@[at].id == id,
        forall|i: int| 0 <= i < at ==> (#[trigger] header.extensions@[i]).id != id,
    ensures
        header.extension_payload(id) == Some(header.extensions@[at].payload@),
{
    lemma_find_extension(header.extensions@, id, at);
}

/// A header without extensions, or without an element with the id, has no such payload.
pub proof fn law_missing_extension_is_not_found(header: Header, id: u8)
    requires
        !header.extension || forall|i: int|
            0 <= i < header.extensions@.len() ==> (#[trigger] header.extensions@[i]).id != id,
    ensures
        header.extension_payload(id) is None,
{
    if header.extension {
        lemma_no_extension(header.extensions@, id);
    }
}

proof fn lemma_find_extension(list: Seq<Extension>, id: u8, at: int)
    requires
        0 <= at < list.len(),
        list[at].id == id,
        forall|i: int| 0 <= i < at ==> (#[trigger] list[i]).id != id,
    ensures
        find_extension(list, id) == Some(list[at].payload@),
    decreases at,
{
    if at > 0 {
        assert(list[0].id != id);
        let rest = list.skip(1);
        assert forall|i: int| 0 <= i < at - 1 implies (#[trigger] rest[i]).id != id by {
            assert(rest[i] == list[i + 1]);
        }
        lemma_find_extension(rest, id, at - 1);
    }
}

proof fn lemma_no_extension(list: Seq<Extension>, id: u8)
    requires
        forall|i: int| 0 <= i < list.len() ==> (#[trigger] list[i]).id != id,
    ensures
        find_extension(list, id) is None,
    decreases list.len(),
{
    if list.len() > 0 {
        assert(list[0].id != id);
        let rest = list.skip(1);
        assert forall|i: int| 0 <= i < rest.len() implies (#[trigger] rest[i]).id != id by {
            assert(rest[i] == list[i + 1]);
        }
        lemma_no_extension(rest, id);
    }
}

/// The sequence number that is told of is spelled by the first two bytes, the high one first.
pub proof fn law_transport_sequence_is_in_two_bytes(ext: Seq<u8>)
    ensures
        transport_sequence(ext) is Some <==> ext.len() >= 2,
        ext.len() >= 2 ==> transport_sequence(ext)->0 / 256 == ext[0] && transport_sequence(ext)->0
            % 256 == ext[1],
{
}

/// The level is in the low seven bits of the first byte, and the voice flag above them.
pub proof fn law_audio_level_is_in_one_byte(ext: Seq<u8>)
    ensures
        audio_level(ext) is Some <==> ext.len() >= 1,
        audio_level(ext) matches Some((voice, level)) ==> level == ext[0] % 128 && (voice <==> ext[0]
            >= 128),
{
    if ext.len() >= 1 {
        let b = ext[0];
        assert(b & 0x7F == b % 128) by (bit_vector);
        assert(b & 0x80 != 0 <==> b >= 128) by (bit_vector);
    }
}

} // verus!
