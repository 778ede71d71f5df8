use vstd::prelude::*;

use crate::buffer::bytes::{be16, peek_u16};
use crate::buffer::error::{BufferError, Result};

verus! {

/// What a VP8 payload descriptor says of its packet.
#[derive(Debug, Eq, PartialEq, Clone, Copy, Structural)]
pub struct VP8 {
    pub temporal_supported: bool,
    // Optional Header
    /// 8 or 16 bits, picture ID
    pub picture_id: u16,
    pub picture_id_idx: i32,
    pub mbit: bool,
    /// 8 bits temporal level zero index
    pub tl0_picture_idx: u8,
    pub tlz_idx: i32,
    // Optional Header If either of the T or K bits are set to 1,
    // the TID/Y/KEYIDX extension field MUST be present.
    /// 2 bits temporal layer idx
    pub tid: u8,
    /// IsKeyFrame is a helper to detect if current packet is a keyframe
    pub is_key_frame: bool,
}

/// The X bit: the descriptor has an extension byte.
pub open spec fn vp8_extended(p: Seq<u8>) -> bool {
    p[0] & 0x80 > 0
}

/// The S bit: the packet starts a partition.
pub open spec fn vp8_starts(p: Seq<u8>) -> bool {
    p[0] & 0x10 > 0
}

/// The I bit: a picture ID follows.
pub open spec fn vp8_has_picture_id(p: Seq<u8>) -> bool {
    p[1] & 0x80 > 0
}

/// The L bit: a temporal level zero index follows.
pub open spec fn vp8_has_tl0(p: Seq<u8>) -> bool {
    p[1] & 0x40 > 0
}

/// The T bit.
pub open spec fn vp8_temporal(p: Seq<u8>) -> bool {
    p[1] & 0x20 > 0
}

/// The T or the K bit: a temporal layer index follows.
pub open spec fn vp8_has_tid(p: Seq<u8>) -> bool {
    vp8_temporal(p) || p[1] & 0x10 > 0
}

/// The M bit: the picture ID has 15 bits.
pub open spec fn vp8_long_picture_id(p: Seq<u8>) -> bool {
    p[2] & 0x80 > 0
}

/// Where the temporal level zero index is, if there is one.
pub open spec fn vp8_tl0_at(p: Seq<u8>) -> int {
    if !vp8_has_picture_id(p) {
        2
    } else if vp8_long_picture_id(p) {
        4
    } else {
        3
    }
}

/// Where the temporal layer index is, if there is one.
pub open spec fn vp8_tid_at(p: Seq<u8>) -> int {
    vp8_tl0_at(p) + if vp8_has_tl0(p) {
        1int
    } else {
        0
    }
}

/// The size of the descriptor: where the VP8 payload starts.
pub open spec fn vp8_header_len(p: Seq<u8>) -> int {
    if vp8_extended(p) {
        vp8_tid_at(p) + if vp8_has_tid(p) {
            1int
        } else {
            0
        }
    } else {
        1
    }
}

/// Whether `p` is long enough for the descriptor and the first byte of the payload.
pub open spec fn vp8_complete(p: Seq<u8>) -> bool {
    p.len() > 0 && (vp8_extended(p) ==> p.len() > 1) && p.len() > vp8_header_len(p)
}

/// The result of parsing the descriptor in `p`.
pub open spec fn vp8_result(p: Seq<u8>) -> Result<()> {
    if p.len() == 0 {
        Err(BufferError::ErrNilPacket)
    } else if vp8_complete(p) {
        Ok(())
    } else {
        Err(BufferError::ErrShortPacket)
    }
}

/// The descriptor in `p`, over what was known `before`: a field whose byte is missing keeps its
/// value.
pub open spec fn vp8_parsed(before: VP8, p: Seq<u8>) -> VP8 {
    let extended = p.len() > 1 && vp8_extended(p);
    let picture = extended && vp8_has_picture_id(p) && p.len() > 2;
    let long = vp8_long_picture_id(p);
    VP8 {
        temporal_supported: if extended {
            vp8_temporal(p)
        } else {
            before.temporal_supported
        },
        picture_id_idx: if picture {
            2
        } else {
            before.picture_id_idx
        },
        mbit: before.mbit || picture && long && p.len() > 3,
        picture_id: if picture && !long {
            (p[2] & 0x7f) as u16
        } else if picture && p.len() > 3 {
            be16(p[2] & 0x7f, p[3]) as u16
        } else {
            before.picture_id
        },
        tlz_idx: if extended && vp8_has_tl0(p) && p.len() > vp8_tl0_at(p) {
            vp8_tl0_at(p) as i32
        } else {
            before.tlz_idx
        },
        tl0_picture_idx: if extended && vp8_has_tl0(p) && p.len() > vp8_tl0_at(p) {
            p[vp8_tl0_at(p)]
        } else {
            before.tl0_picture_idx
        },
        tid: if extended && vp8_has_tid(p) && p.len() > vp8_tid_at(p) {
            (p[vp8_tid_at(p)] & 0xc0) >> 6
        } else {
            before.tid
        },
        is_key_frame: if vp8_complete(p) {
            p[vp8_header_len(p)] & 0x01 == 0 && vp8_starts(p)
        } else {
            before.is_key_frame
        },
    }
}

impl Default for VP8 {
    fn default() -> (vp8: Self)
        ensures
            vp8 == vp8_blank(),
    {
        VP8 {
            temporal_supported: false,
            picture_id: 0,
            picture_id_idx: 0,
            mbit: false,
            tl0_picture_idx: 0,
            tlz_idx: 0,
            tid: 0,
            is_key_frame: false,
        }
    }
}

/// The descriptor of which nothing is known.
pub open spec fn vp8_blank() -> VP8 {
    VP8 {
        temporal_supported: false,
        picture_id: 0,
        picture_id_idx: 0,
        mbit: false,
        tl0_picture_idx: 0,
        tlz_idx: 0,
        tid: 0,
        is_key_frame: false,
    }
}

impl VP8 {
    /// Reads the payload descriptor at the start of `payload`.
    pub fn unmarshal(&mut self, payload: &[u8]) -> (res: Result<()>)
        ensures
            res == vp8_result(payload@),
            *final(self) == vp8_parsed(*old(self), payload@),
    {
        let payload_len: usize = payload.len();
        if payload_len == 0 {
            return Err(BufferError::ErrNilPacket);
        }
        let mut idx: usize = 0;
        let s = payload[idx] & 0x10 > 0;
        if payload[idx] & 0x80 > 0 {
            idx = idx + 1;
            if payload_len < idx + 1 {
                return Err(BufferError::ErrShortPacket);
            }
            self.temporal_supported = payload[idx] & 0x20 > 0;
            let k = payload[idx] & 0x10 > 0;
            let l = payload[idx] & 0x40 > 0;
            // Check for PictureID
            if payload[idx] & 0x80 > 0 {
                idx = idx + 1;
                if payload_len < idx + 1 {
                    return Err(BufferError::ErrShortPacket);
                }
                self.picture_id_idx = idx as i32;
                let pid: u8 = payload[idx] & 0x7f;
                // Check if m is 1, then Picture ID is 15 bits
                if payload[idx] & 0x80 > 0 {
                    idx = idx + 1;
                    if payload_len < idx + 1 {
                        return Err(BufferError::ErrShortPacket);
                    }
                    self.mbit = true;
                    self.picture_id = (pid as u16) * 0x100 + payload[idx] as u16;
                } else {
                    self.picture_id = pid as u16;
                }
            }
            // Check if TL0PICIDX is present
            if l {
                idx = idx + 1;
                if payload_len < idx + 1 {
                    return Err(BufferError::ErrShortPacket);
                }
                self.tlz_idx = idx as i32;
                self.tl0_picture_idx = payload[idx];
            }
            if self.temporal_supported || k {
                idx = idx + 1;
                if payload_len < idx + 1 {
                    return Err(BufferError::ErrShortPacket);
                }
                self.tid = (payload[idx] & 0xc0) >> 6;
            }
            idx = idx + 1;
            if payload_len < idx + 1 {
                return Err(BufferError::ErrShortPacket);
            }
            // Check is packet is a keyframe by looking at P bit in vp8 payload
            self.is_key_frame = payload[idx] & 0x01 == 0 && s;
        } else {
            idx = idx + 1;
            if payload_len < idx + 1 {
                return Err(BufferError::ErrShortPacket);
            }
            // Check is packet is a keyframe by looking at P bit in vp8 payload
            self.is_key_frame = payload[idx] & 0x01 == 0 && s;
        }
        Ok(())
    }
}

/// The type of the NAL unit that starts with the byte `b`.
pub open spec fn nal_type(b: u8) -> u8 {
    b & 0x1F
}

/// Whether one of the units in an aggregation packet, from `at` on, is a sequence parameter set.
/// Each unit has its size in front, and its header `skip` bytes behind that.
pub open spec fn aggregate_has_sps(p: Seq<u8>, at: int, skip: int) -> bool
    decreases p.len() - at,
{
    if at < 0 || at + 2 > p.len() {
        false
    } else {
        let size = be16(p[at], p[at + 1]);
        if at + 2 + size > p.len() || skip >= size {
            false
        } else {
            nal_type(p[at + 2 + skip]) == 7 || aggregate_has_sps(p, at + 2 + size, skip)
        }
    }
}

/// Whether the H.264 payload belongs to a key frame.
pub open spec fn h264_keyframe(p: Seq<u8>) -> bool {
    &&& p.len() > 0
    &&& {
        let nalu = nal_type(p[0]);
        ||| nalu == 5
        ||| nalu == 24 && aggregate_has_sps(p, 1, 0)
        ||| nalu == 25 && aggregate_has_sps(p, 3, 0)
        ||| nalu == 26 && aggregate_has_sps(p, 3, 3)
        ||| nalu == 27 && aggregate_has_sps(p, 3, 4)
        ||| (nalu == 28 || nalu == 29) && p.len() >= 2 && p[1] & 0x80 != 0 && nal_type(p[1]) == 7
    }
}

/// Looks for a sequence parameter set in an aggregation packet.
fn find_sps(payload: &[u8], start: usize, offset: usize) -> (found: bool)
    requires
        offset <= 4,
    ensures
        found == aggregate_has_sps(payload@, start as int, offset as int),
{
    let total: usize = payload.len();
    let mut i: usize = start;
    while i < total
        invariant
            total == payload@.len(),
            offset <= 4,
            aggregate_has_sps(payload@, start as int, offset as int) == aggregate_has_sps(
                payload@,
                i as int,
                offset as int,
            ),
        decreases total - i,
    {
        if total - i < 2 {
            return false;
        }
        let length: usize = peek_u16(payload, i) as usize;
        if total - i - 2 < length {
            return false;
        }
        if offset >= length {
            return false;
        }
        let n: u8 = payload[i + 2 + offset] & 0x1F;
        if n == 7 {
            return true;
        }
        i = i + 2 + length;
    }
    false
}

/// Whether the H.264 payload belongs to a key frame: a slice of one, or the start of a sequence
/// parameter set.
pub fn is_h264_keyframe(payload: &[u8]) -> (key_frame: bool)
    ensures
        key_frame == h264_keyframe(payload@),
{
    let total: usize = payload.len();
    if total == 0 {
        return false;
    }
    let nalu: u8 = payload[0] & 0x1F;
    if nalu == 0 {
        // reserved
        return false;
    } else if nalu <= 23 {
        // simple NALU
        return nalu == 5;
    } else if nalu == 24 || nalu == 25 || nalu == 26 || nalu == 27 {
        // STAP-A, STAP-B, MTAP16 or MTAP24
        let mut start: usize = 1;
        if nalu != 24 {
            // skip DON
            start = 3;
        }
        let mut offset: usize = 0;
        if nalu == 26 {
            offset = 3;
        } else if nalu == 27 {
            offset = 4;
        }
        return find_sps(payload, start, offset);
    } else if nalu == 28 || nalu == 29 {
        // FU-A or FU-B
        if total < 2 {
            return false;
        }
        if (payload[1] & 0x80) == 0 {
            // not a starting fragment
            return false;
        }
        return payload[1] & 0x1F == 7;
    }
    false
}

/// The two top bits of a timestamp, which tell on which side of a wrap around it is.
pub const TIMESTAMP_WRAP_BITS: u32 = 0xC000_0000;

/// Whether wrap around happens from `timestamp1` to `timestamp2`: the first is in the lowest quarter
/// of the timestamps, the second in the highest.
pub open spec fn wraps_around(timestamp1: u32, timestamp2: u32) -> bool {
    timestamp1 < 0x4000_0000 && timestamp2 >= 0xC000_0000
}

/// Whether `timestamp1` is later in time than `timestamp2`, factoring in timestamp wrap around.
pub open spec fn later(timestamp1: u32, timestamp2: u32) -> bool {
    if timestamp1 > timestamp2 {
        !wraps_around(timestamp2, timestamp1)
    } else {
        wraps_around(timestamp1, timestamp2)
    }
}

/// Returns true if wrap around happens from `timestamp1` to `timestamp2`.
pub fn is_timestamp_wrap_around(timestamp1: u32, timestamp2: u32) -> (wraps: bool)
    ensures
        wraps == wraps_around(timestamp1, timestamp2),
{
    assert(timestamp1 & 0xC000_0000 == 0 <==> timestamp1 < 0x4000_0000) by (bit_vector);
    assert(timestamp2 & 0xC000_0000 == 0xC000_0000 <==> timestamp2 >= 0xC000_0000) by (bit_vector);
    (timestamp1 & TIMESTAMP_WRAP_BITS == 0) && (timestamp2 & TIMESTAMP_WRAP_BITS
        == TIMESTAMP_WRAP_BITS)
}

/// Returns true if `timestamp1` is later in time than `timestamp2`, factoring in timestamp wrap
/// around.
pub fn is_later_timestamp(timestamp1: u32, timestamp2: u32) -> (res: bool)
    ensures
        res == later(timestamp1, timestamp2),
{
    if timestamp1 > timestamp2 {
        if is_timestamp_wrap_around(timestamp2, timestamp1) {
            return false;
        }
        return true;
    }
    if is_timestamp_wrap_around(timestamp1, timestamp2) {
        return true;
    }
    false
}

/// Of two different timestamps exactly one is later than the other, and none is later than itself.
pub proof fn law_later_is_decided(timestamp1: u32, timestamp2: u32)
    ensures
        timestamp1 != timestamp2 ==> later(timestamp1, timestamp2) != later(
            timestamp2,
            timestamp1,
        ),
        !later(timestamp1, timestamp1),
{
}

/// Whether the bit with the value `weight`, a power of two, is set in a byte.
pub open spec fn bit_is_set(b: u8, weight: u8) -> bool {
    b / weight % 2 == 1
}

/// A masked bit, without the mask.
proof fn lemma_bits(b: u8)
    ensures
        (b & 0x80 > 0) == bit_is_set(b, 0x80),
        (b & 0x40 > 0) == bit_is_set(b, 0x40),
        (b & 0x20 > 0) == bit_is_set(b, 0x20),
        (b & 0x10 > 0) == bit_is_set(b, 0x10),
        (b & 0x01 == 0) == (b % 2 == 0),
        b & 0x7f == b % 0x80,
        (b & 0xc0) >> 6 == b / 0x40,
        b & 0x1F == b % 0x20,
        (b & 0x80 != 0) == (b >= 0x80),
{
    assert((b & 0x80 > 0) == (b / 0x80 % 2 == 1)) by (bit_vector);
    assert((b & 0x40 > 0) == (b / 0x40 % 2 == 1)) by (bit_vector);
    assert((b & 0x20 > 0) == (b / 0x20 % 2 == 1)) by (bit_vector);
    assert((b & 0x10 > 0) == (b / 0x10 % 2 == 1)) by (bit_vector);
    assert((b & 0x01 == 0) == (b % 2 == 0)) by (bit_vector);
    assert(b & 0x7f == b % 0x80) by (bit_vector);
    assert((b & 0xc0) >> 6 == b / 0x40) by (bit_vector);
    assert(b & 0x1F == b % 0x20) by (bit_vector);
    assert((b & 0x80 != 0) == (b >= 0x80)) by (bit_vector);
}

/// How many bytes stand in front of a VP8 frame: the first one always, and behind an extension byte
/// one or two for the picture ID, one for the temporal level zero index, and one for the temporal
/// layer index or the key index.
pub open spec fn bytes_before_frame(p: Seq<u8>) -> int {
    let one = |present: bool|
        if present {
            1int
        } else {
            0
        };
    if p[0] < 0x80 {
        1
    } else {
        2 + one(p[1] >= 0x80) + one(p[1] >= 0x80 && p[2] >= 0x80) + one(bit_is_set(p[1], 0x40))
            + one(bit_is_set(p[1], 0x20) || bit_is_set(p[1], 0x10))
    }
}

/// The first packet of a VP8 frame belongs to a key frame just where the first byte of the frame is
/// even: its other seven bits do not matter. A packet that starts no partition never counts as one.
pub proof fn law_vp8_key_frame_starts_with_an_even_byte(before: VP8, p: Seq<u8>)
    requires
        p.len() > 0,
        vp8_result(p) is Ok,
    ensures
        bytes_before_frame(p) < p.len(),
        vp8_parsed(before, p).is_key_frame <==> bit_is_set(p[0], 0x10) && p[bytes_before_frame(p)]
            % 2 == 0,
{
    lemma_vp8_size(p);
    lemma_bits(p[0]);
    lemma_bits(p[bytes_before_frame(p)]);
}

/// Two VP8 payloads that differ only in the upper seven bits of the first byte of the frame are both
/// key frames or both none. Where they differ in the lowest bit too and start a partition, just one
/// of them is.
pub proof fn law_vp8_key_frame_is_up_to_one_bit(before: VP8, p: Seq<u8>, b: u8)
    requires
        p.len() > 0,
        vp8_result(p) is Ok,
    ensures
        ({
            let at = bytes_before_frame(p);
            let q = p.update(at, b);
            &&& vp8_result(q) is Ok
            &&& b % 2 == p[at] % 2 ==> vp8_parsed(before, q) == vp8_parsed(before, p)
            &&& b % 2 != p[at] % 2 && bit_is_set(p[0], 0x10) ==> vp8_parsed(before, q).is_key_frame
                != vp8_parsed(before, p).is_key_frame
        }),
{
    let at = bytes_before_frame(p);
    let q = p.update(at, b);
    lemma_vp8_size(p);
    lemma_vp8_size(q);
    lemma_bits(p[0]);
    lemma_bits(p[at]);
    lemma_bits(b);
}

/// A VP8 payload is read where it is longer than what stands in front of the frame. The frame itself
/// does not matter, but for its first byte.
pub proof fn law_vp8_payload_is_read_up_to_the_frame(before: VP8, p: Seq<u8>)
    ensures
        p.len() == 0 ==> vp8_result(p) == Err::<(), BufferError>(BufferError::ErrNilPacket),
        p.len() > 0 && p[0] < 0x80 ==> (vp8_result(p) is Ok <==> p.len() >= 2),
        p.len() > 2 ==> (vp8_result(p) is Ok <==> p.len() > bytes_before_frame(p)),
        p.len() > 0 && vp8_result(p) is Err ==> vp8_result(p) == Err::<(), BufferError>(
            BufferError::ErrShortPacket,
        ),
        vp8_result(p) is Ok ==> vp8_parsed(before, p) == vp8_parsed(
            before,
            p.take(bytes_before_frame(p) + 1),
        ),
{
    if p.len() > 0 {
        lemma_bits(p[0]);
        if p.len() > 1 {
            lemma_bits(p[1]);
        }
        if p.len() > 2 {
            lemma_bits(p[2]);
        }
        if vp8_result(p) is Ok {
            lemma_vp8_size(p);
            let q = p.take(bytes_before_frame(p) + 1);
            assert(q[0] == p[0]);
            lemma_bits(q[0]);
        }
    }
}

/// The fields of a VP8 payload whose descriptor is complete: the picture ID has 7 bits, or 15 where
/// its highest bit says so; the temporal level zero index stands behind it, and the temporal layer is
/// in the two highest bits of the byte behind that.
pub proof fn law_vp8_fields_are_read_in_their_order(before: VP8, p: Seq<u8>)
    requires
        vp8_result(p) is Ok,
        p[0] >= 0x80,
    ensures
        ({
            let read = vp8_parsed(before, p);
            let has_picture = p[1] >= 0x80;
            let long = has_picture && p[2] >= 0x80;
            let has_level = bit_is_set(p[1], 0x40);
            let level_at = if long {
                4int
            } else if has_picture {
                3
            } else {
                2
            };
            let has_layer = bit_is_set(p[1], 0x20) || bit_is_set(p[1], 0x10);
            &&& read.temporal_supported == bit_is_set(p[1], 0x20)
            &&& has_picture && !long ==> read.picture_id == p[2] && read.picture_id_idx == 2
            &&& long ==> read.picture_id == (p[2] - 0x80) * 0x100 + p[3] && read.mbit
            &&& !has_picture ==> read.picture_id == before.picture_id
            &&& has_level ==> read.tl0_picture_idx == p[level_at] && read.tlz_idx == level_at
            &&& !has_level ==> read.tl0_picture_idx == before.tl0_picture_idx
            &&& has_layer && has_level ==> read.tid == p[level_at + 1] / 0x40
            &&& has_layer && !has_level ==> read.tid == p[level_at] / 0x40
            &&& !has_layer ==> read.tid == before.tid
        }),
{
    lemma_vp8_size(p);
    lemma_bits(p[0]);
    lemma_bits(p[1]);
    lemma_bits(p[2]);
    lemma_bits(p[2]);
    lemma_bits(p[vp8_tid_at(p)]);
}

/// The two ways of counting what stands in front of the frame agree.
proof fn lemma_vp8_size(p: Seq<u8>)
    requires
        p.len() > 0,
        vp8_result(p) is Ok,
    ensures
        bytes_before_frame(p) == vp8_header_len(p) < p.len(),
{
    lemma_bits(p[0]);
    lemma_bits(p[1]);
    lemma_bits(p[2]);
}

/// Of single H.264 units just the slices of a key frame count as one, and of fragments just the first
/// one of a sequence parameter set. The two flags in front of the type of a unit do not matter.
pub proof fn law_h264_key_frame_by_its_type(p: Seq<u8>)
    requires
        p.len() > 0,
    ensures
        p[0] % 0x20 < 24 ==> (h264_keyframe(p) <==> p[0] % 0x20 == 5),
        p[0] % 0x20 == 28 || p[0] % 0x20 == 29 ==> (h264_keyframe(p) <==> p.len() > 1 && p[1] >= 0x80
            && p[1] % 0x20 == 7),
        p[0] % 0x20 > 29 ==> !h264_keyframe(p),
{
    lemma_bits(p[0]);
    lemma_bits(p[1]);
}

/// An H.264 packet that holds several units belongs to a key frame where the first unit is a sequence
/// parameter set, and otherwise just where the packet without the first unit does.
pub proof fn law_h264_units_are_looked_through(p: Seq<u8>, at: int, skip: int)
    requires
        0 <= at,
        0 <= skip,
        at + 2 + skip < p.len(),
        skip < be16(p[at], p[at + 1]),
        at + 2 + be16(p[at], p[at + 1]) <= p.len(),
    ensures
        p[at + 2 + skip] % 0x20 == 7 ==> aggregate_has_sps(p, at, skip),
        p[at + 2 + skip] % 0x20 != 7 ==> (aggregate_has_sps(p, at, skip) <==> aggregate_has_sps(
            p,
            at + 2 + be16(p[at], p[at + 1]),
            skip,
        )),
{
    lemma_bits(p[at + 2 + skip]);
}

/// The units of an aggregation packet start behind its type, or behind a decoding order number of two
/// bytes; in a packet with time offsets each unit has 3 or 4 bytes in front.
pub proof fn law_h264_aggregations_have_their_layout(p: Seq<u8>)
    requires
        p.len() > 0,
    ensures
        p[0] % 0x20 == 24 ==> h264_keyframe(p) == aggregate_has_sps(p, 1, 0),
        p[0] % 0x20 == 25 ==> h264_keyframe(p) == aggregate_has_sps(p, 3, 0),
        p[0] % 0x20 == 26 ==> h264_keyframe(p) == aggregate_has_sps(p, 3, 3),
        p[0] % 0x20 == 27 ==> h264_keyframe(p) == aggregate_has_sps(p, 3, 4),
{
    lemma_bits(p[0]);
}

/// A timestamp that is up to a quarter of the circle ahead is later, also where the circle is closed
/// in between.
pub proof fn law_timestamp_ahead_is_later(timestamp: u32, ahead: u32)
    requires
        0 < ahead < 0x4000_0000,
    ensures
        timestamp + ahead < 0x1_0000_0000 ==> later((timestamp + ahead) as u32, timestamp),
        timestamp >= 0xC000_0000 && timestamp + ahead >= 0x1_0000_0000 ==> later(
            (timestamp + ahead - 0x1_0000_0000) as u32,
            timestamp,
        ),
{
}

/// Of two different timestamps one is later, and none is later than itself. Without a turn of the
/// circle in between the greater one is.
pub proof fn law_one_of_two_timestamps_is_later(a: u32, b: u32)
    ensures
        a != b ==> (later(a, b) <==> !later(b, a)),
        !later(a, a),
        0x4000_0000 <= a && a < b ==> later(b, a),
        a < b < 0xC000_0000 ==> later(b, a),
        a < 0x4000_0000 && b >= 0xC000_0000 ==> later(a, b),
{
}

/// Units that do not end within the packet, or are too short for what stands in front of their header,
/// end the look through it: what follows is not looked at.
pub proof fn law_h264_broken_units_are_not_looked_at(p: Seq<u8>, at: int, skip: int)
    requires
        0 <= at,
        0 <= skip,
    ensures
        at + 2 > p.len() ==> !aggregate_has_sps(p, at, skip),
        at + 2 <= p.len() && (at + 2 + be16(p[at], p[at + 1]) > p.len() || be16(p[at], p[at + 1])
            <= skip) ==> !aggregate_has_sps(p, at, skip),
{
}

/// Of a payload that is too short for a descriptor nothing is known: no layers, no picture, no key
/// frame.
pub proof fn law_vp8_empty_payload_says_nothing(p: Seq<u8>)
    requires
        p.len() <= 1,
    ensures
        ({
            let vp8 = vp8_parsed(vp8_blank(), p);
            &&& !vp8.temporal_supported
            &&& !vp8.is_key_frame
            &&& !vp8.mbit
            &&& vp8.picture_id == 0 && vp8.picture_id_idx == 0
            &&& vp8.tl0_picture_idx == 0 && vp8.tlz_idx == 0
            &&& vp8.tid == 0
        }),
{
}

} // verus!
