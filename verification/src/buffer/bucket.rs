use vstd::prelude::*;

use crate::buffer::bytes::{be16, copy_at, copy_range, lemma_be16_round_trip, read_u16, write_u16};
use crate::buffer::error::{BufferError, Result};

verus! {

/// Maximum packet size in bytes, including the RTP header.
pub const MAX_PACKET_SIZE: usize = 1500;

/// Size of a slot: the size of the packet in two bytes, then the packet.
pub const SLOT_SIZE: usize = 1502;

/// How many steps ahead of `old` the sequence number `new` is, counted on the
/// circle of 16-bit sequence numbers.
pub open spec fn ahead_by(new: u16, old: u16) -> int {
    (new - old) % 0x1_0000
}

/// Steps ahead add up, as long as they do not go round the circle.
pub proof fn lemma_ahead_adds(newest: u16, middle: u16, oldest: u16)
    requires
        ahead_by(newest, middle) + ahead_by(middle, oldest) < 0x1_0000,
    ensures
        ahead_by(newest, oldest) == ahead_by(newest, middle) + ahead_by(middle, oldest),
{
}

/// Calculates the distance between two RTP sequence numbers (16-bit),
/// taking into account their **circular** behavior from `0` to `65535`.
///
/// RTP sequence numbers are 16-bit unsigned integers that wrap around:
///
///     ... 65533, 65534, 65535, 0, 1, 2 ...
///
/// This function computes how many steps ahead `new` is from `old` in the circular sequence.
pub fn distance(new: u16, old: u16) -> (steps: u16)
    ensures
        steps == ahead_by(new, old),
{
    new.wrapping_sub(old)
}

/// The number of slots of a bucket with `length` bytes for packets.
pub open spec fn slots_for(length: int) -> int {
    if length < MAX_PACKET_SIZE {
        1
    } else {
        length / MAX_PACKET_SIZE as int
    }
}

/// The step counter after one lost packet was passed over.
pub open spec fn pass_one(at: int, max_steps: int) -> int {
    if at + 1 >= max_steps {
        0
    } else {
        at + 1
    }
}

/// The step counter after `lost` lost packets were passed over.
pub open spec fn pass(at: int, lost: int, max_steps: int) -> int
    decreases lost,
{
    if lost <= 0 {
        at
    } else {
        pass_one(pass(at, lost - 1, max_steps), max_steps)
    }
}

/// The slot behind `lost` lost packets, each of which has a slot from `at` on reserved for it.
pub open spec fn behind_lost(at: int, lost: int, slots: int) -> int {
    if lost <= 0 {
        at
    } else {
        (at + lost) % slots
    }
}

/// The counter, or the slot, behind the one of a packet that was stored.
pub open spec fn advance(at: int, max_steps: int) -> int {
    if at + 1 > max_steps {
        0
    } else {
        at + 1
    }
}

/// The sequence number in the RTP header of the packet in the slot that starts at `off`.
pub open spec fn sn_at(buf: Seq<u8>, off: int) -> int {
    be16(buf[off + 4], buf[off + 5])
}

/// The size of the packet in the slot that starts at `off`.
pub open spec fn size_at(buf: Seq<u8>, off: int) -> int {
    be16(buf[off], buf[off + 1])
}

/// The size in a slot is one that a stored packet can have.
pub open spec fn sound(buf: Seq<u8>, slot: int) -> bool {
    let size = size_at(buf, slot * SLOT_SIZE);
    size <= MAX_PACKET_SIZE && slot * SLOT_SIZE + 2 + size <= buf.len()
}

/// The bytes of a bucket after `pkt` was written to the slot that starts at `off`.
pub open spec fn with_packet(buf: Seq<u8>, off: int, pkt: Seq<u8>) -> Seq<u8> {
    buf.take(off) + crate::buffer::bytes::be16_bytes(pkt.len() as u16) + pkt + buf.skip(
        off + 2 + pkt.len(),
    )
}

/// What `with_packet` leaves in place, byte by byte.
proof fn lemma_with_packet(buf: Seq<u8>, off: int, pkt: Seq<u8>)
    requires
        0 <= off,
        off + 2 + pkt.len() <= buf.len(),
        pkt.len() <= MAX_PACKET_SIZE,
    ensures
        with_packet(buf, off, pkt).len() == buf.len(),
        size_at(with_packet(buf, off, pkt), off) == pkt.len(),
        with_packet(buf, off, pkt).subrange(off + 2, off + 2 + pkt.len()) == pkt,
        forall|k: int|
            0 <= k < off || off + 2 + pkt.len() <= k < buf.len() ==> #[trigger] with_packet(
                buf,
                off,
                pkt,
            )[k] == buf[k],
        pkt.len() >= 4 ==> sn_at(with_packet(buf, off, pkt), off) == rtp_sn(pkt),
{
    lemma_be16_round_trip(pkt.len() as u16);
    assert(with_packet(buf, off, pkt).subrange(off + 2, off + 2 + pkt.len()) =~= pkt);
}

/// The sequence number in the RTP header of `pkt`.
pub open spec fn rtp_sn(pkt: Seq<u8>) -> int {
    be16(pkt[2], pkt[3])
}

/// A circular buffer that stores packets in the order of their sequence numbers.
/// For lost packets, [MAX_PACKET_SIZE] bytes are reserved in the buffer.
///
/// # Packet format
/// ```txt
/// 0                   1                   2                   3
/// 0 1 2 3 4 5 6 7 8 9 0 1 2 3 4 5 6 7 8 9 0 1 2 3 4 5 6 7 8 9 0 1
/// +-+-+-+-+-+-+-+-+-+-+-+-+-+-+-+-+-+-+-+-+-+-+-+-+-+-+-+-+-+-+-+
/// |SZ |V=2|P|X|  CC   |M|     PT    |       sequence number     |
/// +-+-+-+-+-+-+-+-+-+-+-+-+-+-+-+-+-+-+-+-+-+-+-+-+-+-+-+-+-+-+-+
/// |                              ...                            |
/// +-+-+-+-+-+-+-+-+-+-+-+-+-+-+-+-+-+-+-+-+-+-+-+-+-+-+-+-+-+-+-+
/// ```
/// Where SZ is the size of the packet injected before the RTP header.
pub struct Bucket {
    /// The slots, one behind the other.
    pub buf: Vec<u8>,
    /// Which of the slots a packet was stored in.
    pub stored: Vec<bool>,
    /// Bytes for packets, without the sizes in front of them.
    pub capacity: usize,
    /// Whether a packet was offered before.
    pub init: bool,
    /// Counts the packets that were stored and the gaps in front of them, round the bucket.
    pub step: usize,
    /// The slot behind the one of the latest packet.
    pub next: usize,
    /// The sequence number of the latest packet.
    pub head_sn: u16,
    /// The number of the last slot.
    pub max_steps: usize,
}

impl Bucket {
    /// What every operation keeps.
    pub open spec fn wf(&self) -> bool {
        &&& self.max_steps + 1 == slots_for(self.capacity as int)
        &&& self.buf@.len() == self.capacity + 2 * self.slots()
        &&& self.buf@.len() <= isize::MAX
        &&& self.stored@.len() == self.slots()
        &&& self.step <= self.max_steps
        &&& self.next <= self.max_steps
        &&& forall|slot: int| 0 <= slot <= self.max_steps ==> #[trigger] sound(self.buf@, slot)
    }

    /// How many packets the bucket covers.
    pub open spec fn slots(&self) -> int {
        self.max_steps + 1
    }

    /// The slot of the packet that is `behind` steps older than the latest one.
    pub open spec fn slot(&self, behind: int) -> int {
        (self.next + self.slots() - (behind + 1)) % self.slots()
    }

    /// Where the slot of the packet that is `behind` steps older than the latest one starts.
    pub open spec fn offset(&self, behind: int) -> int {
        self.slot(behind) * SLOT_SIZE
    }

    /// Whether the bucket has a slot for the packet that is `behind` steps older than the latest.
    pub open spec fn covers(&self, behind: int) -> bool {
        behind + 1 <= self.next + self.slots() && self.offset(behind) + 6 <= self.buf@.len()
    }

    /// Whether a packet was stored in the slot of `sn`, and the slot has that sequence number.
    pub open spec fn holds(&self, sn: u16) -> bool {
        let behind = ahead_by(self.head_sn, sn);
        &&& self.covers(behind)
        &&& self.stored@[self.slot(behind)]
        &&& sn_at(self.buf@, self.offset(behind)) == sn
    }

    /// The packet with the sequence number `sn`, if the bucket has it.
    pub open spec fn packet(&self, sn: u16) -> Option<Seq<u8>> {
        let off = self.offset(ahead_by(self.head_sn, sn));
        let end = off + 2 + size_at(self.buf@, off);
        if self.holds(sn) && end <= self.buf@.len() {
            Some(self.buf@.subrange(off + 2, end))
        } else {
            None
        }
    }

    /// The sequence number of the latest packet, as the packet `sn` finds it.
    pub open spec fn head_before(&self, sn: u16) -> u16 {
        if self.init {
            self.head_sn
        } else {
            ((sn - 1) % 0x1_0000) as u16
        }
    }

    /// The slot that a latest packet with the sequence number `sn` goes to.
    pub open spec fn latest_slot(&self, sn: u16) -> int {
        behind_lost(self.next as int, ahead_by(sn, self.head_before(sn)) - 1, self.slots())
    }

    /// The step counter when a latest packet with the sequence number `sn` is stored.
    pub open spec fn latest_step(&self, sn: u16) -> int {
        pass(self.step as int, ahead_by(sn, self.head_before(sn)) - 1, self.max_steps as int)
    }

    /// Why a packet of `len` bytes cannot be stored as the latest one in `slot`.
    pub open spec fn push_error(&self, slot: int, len: int) -> Option<BufferError> {
        if slot * MAX_PACKET_SIZE + len > self.capacity {
            Some(BufferError::ErrBufferTooSmall)
        } else if len > MAX_PACKET_SIZE {
            Some(BufferError::ErrLargePacket)
        } else {
            None
        }
    }

    /// Why a packet of `len` bytes with the sequence number `sn` cannot be stored as a late one.
    pub open spec fn set_error(&self, sn: u16, len: int) -> Option<BufferError> {
        let behind = ahead_by(self.head_sn, sn);
        if behind > self.max_steps {
            Some(BufferError::ErrPacketTooOld)
        } else if self.holds(sn) {
            Some(BufferError::ErrRTXPacket)
        } else if len > MAX_PACKET_SIZE {
            Some(BufferError::ErrLargePacket)
        } else if self.slot(behind) * MAX_PACKET_SIZE + len > self.capacity {
            Some(BufferError::ErrBufferTooSmall)
        } else {
            None
        }
    }

    /// The bucket as the packet `sn` finds it: the first packet makes it start right before itself.
    pub open spec fn started(self, sn: u16) -> Bucket {
        Bucket { init: true, head_sn: self.head_before(sn), ..self }
    }

    /// Why a packet of `len` bytes with the sequence number `sn` cannot be stored.
    pub open spec fn add_error(&self, len: int, sn: u16, latest: bool) -> Option<BufferError> {
        if latest {
            self.push_error(self.latest_slot(sn), len)
        } else {
            self.started(sn).set_error(sn, len)
        }
    }

    /// The slot that a packet with the sequence number `sn` goes to.
    pub open spec fn add_slot(&self, sn: u16, latest: bool) -> int {
        if latest {
            self.latest_slot(sn)
        } else {
            self.slot(ahead_by(self.head_before(sn), sn))
        }
    }

    /// Whether `after` is this bucket with `pkt` stored under the sequence number `sn`.
    pub open spec fn becomes(&self, after: Bucket, pkt: Seq<u8>, sn: u16, latest: bool) -> bool {
        let max = self.max_steps as int;
        let slot = self.add_slot(sn, latest);
        &&& after.capacity == self.capacity
        &&& after.max_steps == self.max_steps
        &&& after.init
        &&& after.buf@ == with_packet(self.buf@, slot * SLOT_SIZE, pkt)
        &&& after.stored@ == self.stored@.update(slot, true)
        &&& latest ==> after.head_sn == sn
        &&& latest ==> after.next == advance(slot, max)
        &&& latest ==> after.step == advance(self.latest_step(sn), max)
        &&& !latest ==> after.head_sn == self.head_before(sn)
        &&& !latest ==> after.next == self.next
        &&& !latest ==> after.step == advance(self.step as int, max)
    }

    /// Whether `after` is this bucket once `pkt` was offered to it under the sequence number `sn`,
    /// stored or not.
    pub open spec fn offered(&self, after: Bucket, pkt: Seq<u8>, sn: u16, latest: bool) -> bool {
        match self.add_error(pkt.len() as int, sn, latest) {
            Some(_) => {
                &&& after.capacity == self.capacity
                &&& after.max_steps == self.max_steps
                &&& after.init
                &&& after.buf@ == self.buf@
                &&& after.stored@ == self.stored@
                &&& latest ==> after.head_sn == sn
                &&& latest ==> after.next == self.latest_slot(sn)
                &&& latest ==> after.step == self.latest_step(sn)
                &&& !latest ==> after.head_sn == self.head_before(sn)
                &&& !latest ==> after.next == self.next
                &&& !latest ==> after.step == self.step
            },
            None => self.becomes(after, pkt, sn, latest),
        }
    }

    /// Whether `res` and `after` come of copying the packet `sn` to the front of `before`.
    pub open spec fn copied(
        &self,
        res: Result<usize>,
        before: Seq<u8>,
        after: Seq<u8>,
        sn: u16,
    ) -> bool {
        match self.packet(sn) {
            None => res == Err::<usize, BufferError>(BufferError::ErrPacketNotFound) && after
                == before,
            Some(pkt) => if before.len() < pkt.len() {
                res == Err::<usize, BufferError>(BufferError::ErrBufferTooSmall) && after == before
            } else {
                res == Ok::<usize, BufferError>(pkt.len() as usize) && after == pkt + before.skip(
                    pkt.len() as int,
                )
            },
        }
    }

    /// Whether this is a new bucket with `length` bytes for packets.
    pub open spec fn is_empty_with(&self, length: usize) -> bool {
        &&& self.wf()
        &&& self.capacity == length
        &&& !self.init
        &&& self.step == 0
        &&& self.next == 0
        &&& self.head_sn == 0
        &&& self.buf@ == Seq::new(self.buf@.len(), |i: int| 0u8)
        &&& self.stored@ == Seq::new(self.stored@.len(), |i: int| false)
    }

    /// Creates a new bucket with the given capacity.
    ///
    /// # Arguments
    /// - `length`: The capacity of the bucket. Below [MAX_PACKET_SIZE] the bucket has one slot,
    ///   which takes packets of up to `length` bytes.
    pub fn new(length: usize) -> (bucket: Self)
        requires
            length + 2 * slots_for(length as int) <= isize::MAX,
        ensures
            bucket.is_empty_with(length),
            bucket.max_steps == slots_for(length as int) - 1,
    {
        let max_steps: usize = (length / MAX_PACKET_SIZE).saturating_sub(1);
        let buf: Vec<u8> = vec![0; length + 2 * (max_steps + 1)];
        assert(buf@ =~= Seq::new(buf@.len(), |i: int| 0u8));
        let stored: Vec<bool> = vec![false; max_steps + 1];
        assert(stored@ =~= Seq::new(stored@.len(), |i: int| false));
        let bucket = Bucket {
            buf,
            stored,
            capacity: length,
            init: false,
            step: 0,
            next: 0,
            head_sn: 0,
            max_steps,
        };
        proof {
            assert forall|slot: int| 0 <= slot <= bucket.max_steps implies #[trigger] sound(
                bucket.buf@,
                slot,
            ) by {
                bucket.lemma_slot_room(slot);
            }
        }
        bucket
    }

    /// Stores a packet: the latest one behind the others, a late one in the slot that was
    /// reserved for it.
    pub fn add_packet(&mut self, pkt: &[u8], sn: u16, latest: bool) -> (res: Result<Vec<u8>>)
        requires
            old(self).wf(),
        ensures
            final(self).wf(),
            old(self).offered(*final(self), pkt@, sn, latest),
            match old(self).add_error(pkt@.len() as int, sn, latest) {
                Some(err) => res == Err::<Vec<u8>, BufferError>(err),
                None => res matches Ok(stored) && stored@ == pkt@,
            },
    {
        if !self.init {
            self.head_sn = sn.wrapping_sub(1);
            self.init = true;
        }
        if !latest {
            return self.set(sn, pkt);
        }
        let diff: u16 = distance(sn, self.head_sn);
        self.head_sn = sn;
        if diff > 1 {
            // The lost packets keep their slots
            proof {
                self.lemma_slots_fit();
            }
            self.next = (self.next + (diff as usize - 1)) % (self.max_steps + 1);
        }
        let ghost first = *self;
        let mut i: u16 = 1;
        while i < diff
            invariant
                1 <= i,
                i <= diff || (i == 1 && diff == 0),
                self.wf(),
                self.buf@ == first.buf@,
                self.stored@ == first.stored@,
                self.capacity == first.capacity,
                self.init,
                self.head_sn == first.head_sn,
                self.max_steps == first.max_steps,
                self.next == first.next,
                self.step == pass(first.step as int, i - 1, first.max_steps as int),
            decreases diff - i,
        {
            self.step = Self::pass_lost(self.step, self.max_steps);
            i = i + 1;
        }
        self.push(pkt)
    }

    fn pass_lost(at: usize, max_steps: usize) -> (next: usize)
        requires
            at <= max_steps < usize::MAX,
        ensures
            next == pass_one(at as int, max_steps as int),
            next <= max_steps,
    {
        if at + 1 >= max_steps {
            0
        } else {
            at + 1
        }
    }

    fn advanced(at: usize, max_steps: usize) -> (next: usize)
        requires
            at <= max_steps < usize::MAX,
        ensures
            next == advance(at as int, max_steps as int),
            next <= max_steps,
    {
        if at + 1 > max_steps {
            0
        } else {
            at + 1
        }
    }

    /// Every slot of the bucket has its two bytes and its share of the capacity.
    proof fn lemma_slot_room(&self, slot: int)
        requires
            self.max_steps + 1 == slots_for(self.capacity as int),
            self.buf@.len() == self.capacity + 2 * self.slots(),
            0 <= slot <= self.max_steps,
        ensures
            0 <= slot * MAX_PACKET_SIZE,
            slot * SLOT_SIZE == slot * MAX_PACKET_SIZE + 2 * slot,
            slot * MAX_PACKET_SIZE <= self.capacity,
            slot * SLOT_SIZE + 2 <= self.buf@.len(),
            slot < self.max_steps ==> slot * SLOT_SIZE + SLOT_SIZE <= self.buf@.len(),
            forall|len: int|
                slot * MAX_PACKET_SIZE + len <= self.capacity ==> #[trigger] (slot * SLOT_SIZE + 2
                    + len) <= self.buf@.len(),
    {
        assert(slot * MAX_PACKET_SIZE <= self.max_steps * MAX_PACKET_SIZE) by (nonlinear_arith)
            requires
                0 <= slot <= self.max_steps,
        ;
        if self.capacity < MAX_PACKET_SIZE {
            assert(slot == 0);
        } else {
            assert((self.capacity as int / MAX_PACKET_SIZE as int) * MAX_PACKET_SIZE
                <= self.capacity);
            assert(self.max_steps * MAX_PACKET_SIZE + MAX_PACKET_SIZE <= self.capacity);
        }
    }

    /// In a bucket with room for whole packets every slot has it.
    proof fn lemma_room_for_whole(&self, slot: int)
        requires
            self.wf(),
            self.capacity >= MAX_PACKET_SIZE,
            0 <= slot <= self.max_steps,
        ensures
            slot * MAX_PACKET_SIZE + MAX_PACKET_SIZE <= self.capacity,
    {
        assert(slot * MAX_PACKET_SIZE <= self.max_steps * MAX_PACKET_SIZE) by (nonlinear_arith)
            requires
                0 <= slot <= self.max_steps,
        ;
        assert(self.max_steps * MAX_PACKET_SIZE + MAX_PACKET_SIZE <= self.capacity);
    }

    /// Copies the packet with the sequence number `sn` to the front of `buf` and returns its size.
    pub fn get_packet(&self, buf: &mut [u8], sn: u16) -> (res: Result<usize>)
        requires
            self.wf(),
        ensures
            final(buf)@.len() == old(buf)@.len(),
            self.copied(res, old(buf)@, final(buf)@, sn),
    {
        let data: Vec<u8> = match self.get(sn) {
            None => {
                return Err(BufferError::ErrPacketNotFound);
            },
            Some(data) => data,
        };
        let n: usize = data.len();
        if buf.len() < n {
            return Err(BufferError::ErrBufferTooSmall);
        }
        let ghost before = buf@;
        let mut i: usize = 0;
        while i < n
            invariant
                i <= n == data@.len() <= before.len(),
                buf@.len() == before.len(),
                forall|k: int| 0 <= k < i ==> buf@[k] == data@[k],
                forall|k: int| i <= k < before.len() ==> buf@[k] == before[k],
            decreases n - i,
        {
            buf[i] = data[i];
            i = i + 1;
        }
        assert(buf@ =~= data@ + before.skip(n as int));
        Ok(n)
    }

    fn push(&mut self, pkt: &[u8]) -> (res: Result<Vec<u8>>)
        requires
            old(self).wf(),
        ensures
            final(self).wf(),
            final(self).capacity == old(self).capacity,
            final(self).max_steps == old(self).max_steps,
            final(self).init == old(self).init,
            final(self).head_sn == old(self).head_sn,
            match old(self).push_error(old(self).next as int, pkt@.len() as int) {
                Some(err) => {
                    &&& res == Err::<Vec<u8>, BufferError>(err)
                    &&& final(self).buf@ == old(self).buf@
                    &&& final(self).stored@ == old(self).stored@
                    &&& final(self).next == old(self).next
                    &&& final(self).step == old(self).step
                },
                None => {
                    &&& res matches Ok(stored) && stored@ == pkt@
                    &&& final(self).buf@ == with_packet(
                        old(self).buf@,
                        old(self).next * SLOT_SIZE,
                        pkt@,
                    )
                    &&& final(self).stored@ == old(self).stored@.update(
                        old(self).next as int,
                        true,
                    )
                    &&& final(self).next == advance(
                        old(self).next as int,
                        old(self).max_steps as int,
                    )
                    &&& final(self).step == advance(
                        old(self).step as int,
                        old(self).max_steps as int,
                    )
                },
            },
    {
        let pkt_len: usize = pkt.len();
        proof {
            self.lemma_slot_room(self.next as int);
        }
        let start: usize = self.next * MAX_PACKET_SIZE;
        // Prevent memory overflow
        if self.capacity - start < pkt_len {
            return Err(BufferError::ErrBufferTooSmall);
        }
        // Prevent overlapping
        if pkt_len > MAX_PACKET_SIZE {
            return Err(BufferError::ErrLargePacket);
        }
        self.write(self.next, pkt);
        self.step = Self::advanced(self.step, self.max_steps);
        self.next = Self::advanced(self.next, self.max_steps);
        Ok(copy_range(pkt, 0, pkt_len))
    }

    /// Writes `pkt` with its size to a slot.
    fn write(&mut self, slot: usize, pkt: &[u8])
        requires
            old(self).wf(),
            slot <= old(self).max_steps,
            pkt@.len() <= MAX_PACKET_SIZE,
            slot * MAX_PACKET_SIZE + pkt@.len() <= old(self).capacity,
        ensures
            *final(self) == (Bucket {
                buf: final(self).buf,
                stored: final(self).stored,
                ..*old(self)
            }),
            final(self).buf@ == with_packet(old(self).buf@, slot * SLOT_SIZE, pkt@),
            final(self).stored@ == old(self).stored@.update(slot as int, true),
            final(self).wf(),
    {
        proof {
            self.lemma_slot_room(slot as int);
            assert(slot * SLOT_SIZE + 2 + pkt@.len() <= self.buf@.len());
        }
        let off: usize = slot * SLOT_SIZE;
        let ghost before = self.buf@;
        write_u16(&mut self.buf, off, pkt.len() as u16);
        copy_at(&mut self.buf, off + 2, pkt);
        self.stored.set(slot, true);
        assert(self.buf@ =~= with_packet(before, off as int, pkt@));
        proof {
            lemma_with_packet(before, off as int, pkt@);
            assert forall|other: int| 0 <= other <= self.max_steps implies #[trigger] sound(
                self.buf@,
                other,
            ) by {
                assert(sound(before, other));
                self.lemma_slot_room(other);
                if other < slot {
                    assert(other * SLOT_SIZE + SLOT_SIZE <= slot * SLOT_SIZE);
                } else if other > slot {
                    assert(slot * SLOT_SIZE + SLOT_SIZE <= other * SLOT_SIZE);
                }
            }
        }
    }

    /// Returns a copy of the packet looked up by its sequence number, or [None] if it is not found.
    pub fn get(&self, sn: u16) -> (res: Option<Vec<u8>>)
        requires
            self.wf(),
        ensures
            match self.packet(sn) {
                None => res is None,
                Some(pkt) => res matches Some(found) && found@ == pkt,
            },
    {
        let diff: u16 = distance(self.head_sn, sn);
        let pos: usize = match self.position(diff) {
            None => {
                return None;
            },
            Some(pos) => pos,
        };
        if !self.has_sn(pos, sn) {
            return None;
        }
        let off: usize = pos * SLOT_SIZE;
        let size: u16 = read_u16(&self.buf, off);
        let start: usize = off + 2;
        if self.buf.len() - start < size as usize {
            return None;
        }
        Some(copy_range(&self.buf, start, start + size as usize))
    }

    /// The slot of the packet that is `behind` steps older than the latest one, if there is one
    /// and it is large enough for a sequence number.
    fn position(&self, behind: u16) -> (res: Option<usize>)
        requires
            self.wf(),
        ensures
            res is Some <==> self.covers(behind as int),
            res matches Some(pos) ==> pos == self.slot(behind as int) && pos <= self.max_steps
                && pos * SLOT_SIZE + 6 <= self.buf@.len(),
    {
        let slots: usize = self.max_steps + 1;
        proof {
            self.lemma_slots_fit();
        }
        if (behind as usize) + 1 > self.next + slots {
            return None;
        }
        let pos: usize = (self.next + slots - (behind as usize + 1)) % slots;
        proof {
            self.lemma_slot_room(pos as int);
        }
        let off: usize = pos * SLOT_SIZE;
        if self.buf.len() - off < 6 {
            return None;
        }
        Some(pos)
    }

    /// Twice the number of slots is a number that the machine can hold.
    proof fn lemma_slots_fit(&self)
        requires
            self.wf(),
        ensures
            2 * self.slots() + 0x1_0000 <= usize::MAX,
    {
    }

    fn set(&mut self, sn: u16, pkt: &[u8]) -> (res: Result<Vec<u8>>)
        requires
            old(self).wf(),
        ensures
            final(self).wf(),
            final(self).capacity == old(self).capacity,
            final(self).max_steps == old(self).max_steps,
            final(self).init == old(self).init,
            final(self).head_sn == old(self).head_sn,
            final(self).next == old(self).next,
            match old(self).set_error(sn, pkt@.len() as int) {
                Some(err) => {
                    &&& res == Err::<Vec<u8>, BufferError>(err)
                    &&& final(self).buf@ == old(self).buf@
                    &&& final(self).stored@ == old(self).stored@
                    &&& final(self).step == old(self).step
                },
                None => {
                    &&& res matches Ok(stored) && stored@ == pkt@
                    &&& final(self).buf@ == with_packet(
                        old(self).buf@,
                        old(self).offset(ahead_by(old(self).head_sn, sn)),
                        pkt@,
                    )
                    &&& final(self).stored@ == old(self).stored@.update(
                        old(self).slot(ahead_by(old(self).head_sn, sn)),
                        true,
                    )
                    &&& final(self).step == advance(
                        old(self).step as int,
                        old(self).max_steps as int,
                    )
                },
            },
    {
        let diff: u16 = distance(self.head_sn, sn);
        if diff as usize > self.max_steps {
            return Err(BufferError::ErrPacketTooOld);
        }
        if let Some(pos) = self.position(diff) {
            if self.has_sn(pos, sn) {
                return Err(BufferError::ErrRTXPacket);
            }
        }
        let pkt_len: usize = pkt.len();
        if pkt_len > MAX_PACKET_SIZE {
            return Err(BufferError::ErrLargePacket);
        }
        proof {
            self.lemma_slots_fit();
        }
        let slots: usize = self.max_steps + 1;
        let pos: usize = (self.next + slots - (diff as usize + 1)) % slots;
        proof {
            self.lemma_slot_room(pos as int);
        }
        let start: usize = pos * MAX_PACKET_SIZE;
        if self.capacity - start < pkt_len {
            return Err(BufferError::ErrBufferTooSmall);
        }
        self.write(pos, pkt);
        self.step = Self::advanced(self.step, self.max_steps);
        Ok(copy_range(pkt, 0, pkt_len))
    }

    /// A packet is stored in one of the bucket's slots.
    proof fn lemma_add_slot_in_range(&self, sn: u16, latest: bool)
        requires
            self.wf(),
            !latest ==> self.started(sn).set_error(sn, 0) != Some(BufferError::ErrPacketTooOld),
        ensures
            0 <= self.add_slot(sn, latest) <= self.max_steps,
            !latest ==> self.started(sn).slot(ahead_by(self.head_before(sn), sn)) == self.add_slot(
                sn,
                false,
            ),
    {
        if latest {
            let lost = ahead_by(sn, self.head_before(sn)) - 1;
            if lost > 0 {
                vstd::arithmetic::div_mod::lemma_mod_bound(self.next + lost, self.slots());
            }
        } else {
            lemma_wrap(self.next as int, self.slots(), ahead_by(self.head_before(sn), sn));
        }
    }

    /// Writing a packet to `slot` leaves the packet in the slot `other` as it is.
    proof fn lemma_other_slot_kept(&self, after: Bucket, pkt: Seq<u8>, slot: int, other: int)
        requires
            self.wf(),
            after.buf@ == with_packet(self.buf@, slot * SLOT_SIZE, pkt),
            0 <= slot <= self.max_steps,
            0 <= other <= self.max_steps,
            slot != other,
            pkt.len() <= MAX_PACKET_SIZE,
            slot * MAX_PACKET_SIZE + pkt.len() <= self.capacity,
        ensures
            after.buf@.len() == self.buf@.len(),
            size_at(after.buf@, other * SLOT_SIZE) == size_at(self.buf@, other * SLOT_SIZE),
            other * SLOT_SIZE + 6 <= self.buf@.len() ==> sn_at(after.buf@, other * SLOT_SIZE)
                == sn_at(self.buf@, other * SLOT_SIZE),
            after.buf@.subrange(
                other * SLOT_SIZE + 2,
                other * SLOT_SIZE + 2 + size_at(self.buf@, other * SLOT_SIZE),
            ) == self.buf@.subrange(
                other * SLOT_SIZE + 2,
                other * SLOT_SIZE + 2 + size_at(self.buf@, other * SLOT_SIZE),
            ),
    {
        self.lemma_slot_room(slot);
        self.lemma_slot_room(other);
        assert(sound(self.buf@, other));
        assert(slot * SLOT_SIZE + 2 + pkt.len() <= self.buf@.len());
        lemma_with_packet(self.buf@, slot * SLOT_SIZE, pkt);
        if other < slot {
            assert(other * SLOT_SIZE + SLOT_SIZE <= slot * SLOT_SIZE);
        } else {
            assert(slot * SLOT_SIZE + SLOT_SIZE <= other * SLOT_SIZE);
        }
        assert(after.buf@.subrange(
            other * SLOT_SIZE + 2,
            other * SLOT_SIZE + 2 + size_at(self.buf@, other * SLOT_SIZE),
        ) =~= self.buf@.subrange(
            other * SLOT_SIZE + 2,
            other * SLOT_SIZE + 2 + size_at(self.buf@, other * SLOT_SIZE),
        ));
    }

    /// Whether a packet was stored in a slot, and the slot has the sequence number `sn`.
    fn has_sn(&self, slot: usize, sn: u16) -> (has: bool)
        requires
            self.wf(),
            slot <= self.max_steps,
            slot * SLOT_SIZE + 6 <= self.buf@.len(),
        ensures
            has == (self.stored@[slot as int] && sn_at(self.buf@, slot * SLOT_SIZE) == sn),
    {
        self.stored[slot] && Self::get_packet_sn(&self.buf, slot * SLOT_SIZE) == sn
    }

    fn get_packet_sn(pkt: &[u8], offset: usize) -> (sn: u16)
        requires
            offset + 6 <= pkt@.len(),
        ensures
            sn == sn_at(pkt@, offset as int),
    {
        let total: usize = pkt.len();
        assert(offset + 6 <= total);
        read_u16(pkt, offset + 4)
    }
}

/// Reading a packet back: a packet that was stored under the sequence number in its header is the
/// packet that the bucket has under that number.
pub proof fn law_stored_packet_is_found(
    before: Bucket,
    after: Bucket,
    pkt: Seq<u8>,
    sn: u16,
    latest: bool,
)
    requires
        before.wf(),
        after.wf(),
        before.add_error(pkt.len() as int, sn, latest) is None,
        before.becomes(after, pkt, sn, latest),
        pkt.len() >= 4,
        rtp_sn(pkt) == sn,
    ensures
        after.packet(sn) == Some(pkt),
{
    let slot = before.add_slot(sn, latest);
    before.lemma_add_slot_in_range(sn, latest);
    before.lemma_slot_room(slot);
    assert(slot * SLOT_SIZE + 2 + pkt.len() <= before.buf@.len());
    lemma_with_packet(before.buf@, slot * SLOT_SIZE, pkt);
    if latest {
        assert(ahead_by(after.head_sn, sn) == 0);
        assert(after.slot(0) == slot) by {
            lemma_slot_of_latest(slot, after.slots());
        }
    }
}

/// A new bucket has no packet, whatever sequence number it is looked up by.
pub proof fn law_new_bucket_has_no_packet(bucket: Bucket, length: usize, sn: u16)
    requires
        bucket.is_empty_with(length),
    ensures
        bucket.packet(sn) is None,
{
    vstd::arithmetic::div_mod::lemma_mod_bound(
        bucket.next + bucket.slots() - (ahead_by(bucket.head_sn, sn) + 1),
        bucket.slots(),
    );
}

/// A late packet takes no other packet's place.
#[verifier::spinoff_prover]
#[verifier::rlimit(40)]
pub proof fn law_late_packet_keeps_the_others(
    before: Bucket,
    after: Bucket,
    pkt: Seq<u8>,
    sn: u16,
    other: u16,
)
    requires
        before.wf(),
        after.wf(),
        before.init,
        before.add_error(pkt.len() as int, sn, false) is None,
        before.becomes(after, pkt, sn, false),
        other != sn,
        ahead_by(before.head_sn, other) <= before.max_steps,
    ensures
        after.packet(other) == before.packet(other),
{
    let slot = before.add_slot(sn, false);
    let behind = ahead_by(before.head_sn, other);
    before.lemma_add_slot_in_range(sn, false);
    lemma_slots_differ(before.next as int, before.slots(), ahead_by(before.head_sn, sn), behind);
    let kept = before.slot(behind);
    assert(after.slot(behind) == kept);
    assert(slot != kept);
    before.lemma_other_slot_kept(after, pkt, slot, kept);
    assert(after.covers(behind) == before.covers(behind));
}

/// The latest packet takes the place of no packet that the bucket still covers: every packet that is
/// at most `max_steps` steps older than the latest one is found under its number as before, whatever
/// gap lies in front of the latest one.
pub proof fn law_latest_packet_keeps_the_recent(
    before: Bucket,
    after: Bucket,
    pkt: Seq<u8>,
    sn: u16,
    other: u16,
)
    requires
        before.wf(),
        after.wf(),
        before.init,
        before.add_error(pkt.len() as int, sn, true) is None,
        before.becomes(after, pkt, sn, true),
        sn != before.head_sn,
        ahead_by(before.head_sn, other) + ahead_by(sn, before.head_sn) <= before.max_steps,
        ahead_by(before.head_sn, other) + ahead_by(sn, before.head_sn) < 0x1_0000,
    ensures
        after.packet(other) == before.packet(other),
{
    let gap = ahead_by(sn, before.head_sn);
    let behind = ahead_by(before.head_sn, other);
    let slot = before.add_slot(sn, true);
    before.lemma_add_slot_in_range(sn, true);
    lemma_ahead_adds(sn, before.head_sn, other);
    lemma_slot_stays(before.next as int, before.slots(), gap, behind);
    assert(slot == behind_lost(before.next as int, gap - 1, before.slots()));
    let kept = before.slot(behind);
    assert(after.slot(behind + gap) == kept);
    assert(after.covers(behind + gap) == before.covers(behind)) by {
        assert(after.buf@.len() == before.buf@.len());
    }
    before.lemma_other_slot_kept(after, pkt, slot, kept);
}

/// The slot in front of the one behind `slot` is `slot`.
proof fn lemma_slot_of_latest(slot: int, slots: int)
    requires
        0 <= slot < slots,
    ensures
        (advance(slot, slots - 1) + slots - 1) % slots == slot,
{
    lemma_wrap(advance(slot, slots - 1), slots, 0);
}

/// Packets of different age have different slots.
proof fn lemma_slots_differ(next: int, slots: int, one: int, other: int)
    requires
        0 <= next < slots,
        0 <= one < slots,
        0 <= other < slots,
        one != other,
    ensures
        0 <= (next + slots - (one + 1)) % slots < slots,
        0 <= (next + slots - (other + 1)) % slots < slots,
        (next + slots - (one + 1)) % slots != (next + slots - (other + 1)) % slots,
{
    lemma_wrap(next, slots, one);
    lemma_wrap(next, slots, other);
}

/// The slot of a packet, without the remainder.
proof fn lemma_wrap(next: int, slots: int, behind: int)
    requires
        0 <= next < slots,
        0 <= behind < slots,
    ensures
        (next + slots - (behind + 1)) % slots == if behind < next {
            next - behind - 1
        } else {
            next + slots - behind - 1
        },
{
    if behind < next {
        vstd::arithmetic::div_mod::lemma_mod_add_multiples_vanish(next - behind - 1, slots);
        vstd::arithmetic::div_mod::lemma_small_mod((next - behind - 1) as nat, slots as nat);
    } else {
        vstd::arithmetic::div_mod::lemma_small_mod(
            (next + slots - behind - 1) as nat,
            slots as nat,
        );
    }
}

/// A packet keeps its slot when the latest one moves on by `gap`.
proof fn lemma_slot_stays(next: int, slots: int, gap: int, behind: int)
    requires
        0 <= next < slots,
        0 < gap,
        0 <= behind,
        behind + gap < slots,
    ensures
        ({
            let slot = behind_lost(next, gap - 1, slots);
            &&& 0 <= slot < slots
            &&& 0 <= (next + slots - (behind + 1)) % slots < slots
            &&& (next + slots - (behind + 1)) % slots != slot
            &&& (advance(slot, slots - 1) + slots - (behind + gap + 1)) % slots == (next + slots - (
            behind + 1)) % slots
        }),
{
    let slot = behind_lost(next, gap - 1, slots);
    let plain = next + gap - 1;
    if plain < slots {
        vstd::arithmetic::div_mod::lemma_small_mod(plain as nat, slots as nat);
        assert(slot == plain);
    } else {
        vstd::arithmetic::div_mod::lemma_mod_add_multiples_vanish(plain - slots, slots);
        vstd::arithmetic::div_mod::lemma_small_mod((plain - slots) as nat, slots as nat);
        assert(slot == plain - slots);
    }
    lemma_wrap(next, slots, behind);
    lemma_wrap(advance(slot, slots - 1), slots, behind + gap);
}

/// A packet that is found is copied whole to the front, and what stood behind it stays. A place that
/// is too small for it, or a packet that is not found, changes nothing.
pub proof fn law_found_packet_is_copied_whole(
    bucket: Bucket,
    res: Result<usize>,
    before: Seq<u8>,
    after: Seq<u8>,
    sn: u16,
)
    requires
        bucket.wf(),
        bucket.copied(res, before, after, sn),
    ensures
        after.len() == before.len(),
        res is Ok <==> (bucket.packet(sn) matches Some(pkt) && pkt.len() <= before.len()),
        res matches Ok(n) ==> bucket.packet(sn) == Some(after.take(n as int)) && after.skip(n as int)
            == before.skip(n as int),
        res is Err ==> after == before,
        bucket.packet(sn) is None ==> res == Err::<usize, BufferError>(
            BufferError::ErrPacketNotFound,
        ),
{
    if let Ok(n) = res {
        let pkt = bucket.packet(sn)->Some_0;
        let off = bucket.offset(ahead_by(bucket.head_sn, sn));
        assert(pkt.len() == size_at(bucket.buf@, off));
        assert(after.take(n as int) =~= pkt);
        assert(after.skip(n as int) =~= before.skip(n as int));
    }
}

/// A packet of up to 1500 bytes is stored as the latest one, wherever it goes, in a bucket with room
/// for whole packets. So is a late one that is not older than the bucket reaches back and was not
/// stored before.
pub proof fn law_packets_of_usual_size_are_stored(bucket: Bucket, len: int, sn: u16)
    requires
        bucket.wf(),
        bucket.capacity as int >= 1500,
        0 <= len <= 1500,
    ensures
        bucket.add_error(len, sn, true) is None,
        bucket.init && (bucket.head_sn - sn) % 0x1_0000 < bucket.capacity as int / 1500
            && !bucket.holds(sn) ==> bucket.add_error(len, sn, false) is None,
{
    bucket.lemma_add_slot_in_range(sn, true);
    let slot = bucket.latest_slot(sn);
    bucket.lemma_room_for_whole(slot);
    let behind = ahead_by(bucket.head_sn, sn);
    if bucket.init && behind <= bucket.max_steps {
        lemma_wrap(bucket.next as int, bucket.slots(), behind);
        bucket.lemma_room_for_whole(bucket.slot(behind));
    }
}

/// A late packet that is refused changes no packet that the bucket has.
pub proof fn law_refused_packet_changes_no_other(
    before: Bucket,
    after: Bucket,
    pkt: Seq<u8>,
    sn: u16,
    other: u16,
)
    requires
        before.wf(),
        before.init,
        before.offered(after, pkt, sn, false),
        before.add_error(pkt.len() as int, sn, false) is Some,
    ensures
        after.packet(other) == before.packet(other),
        after.head_sn == before.head_sn,
{
}

/// A packet is refused where it is larger than 1500 bytes, and a late one also where the bucket does
/// not reach back to it, or has it already.
pub proof fn law_packets_are_refused_for_a_reason(bucket: Bucket, len: int, sn: u16, latest: bool)
    requires
        bucket.wf(),
        bucket.init,
        0 <= len,
    ensures
        len > 1500 ==> bucket.add_error(len, sn, latest) is Some,
        !latest && (bucket.head_sn - sn) % 0x1_0000 > bucket.max_steps ==> bucket.add_error(
            len,
            sn,
            latest,
        ) == Some(BufferError::ErrPacketTooOld),
        !latest && (bucket.head_sn - sn) % 0x1_0000 <= bucket.max_steps && bucket.packet(sn) is Some
            ==> bucket.add_error(len, sn, latest) == Some(BufferError::ErrRTXPacket),
{
}

/// The step counter goes round: it moves by one for every packet that was lost.
pub proof fn law_step_counter_goes_round(at: int, lost: int, max_steps: int)
    requires
        0 <= at < max_steps,
        0 <= lost,
    ensures
        pass(at, lost, max_steps) == (at + lost) % max_steps,
    decreases lost,
{
    if lost > 0 {
        law_step_counter_goes_round(at, lost - 1, max_steps);
        vstd::arithmetic::div_mod::lemma_mod_bound(at + lost - 1, max_steps);
        vstd::arithmetic::div_mod::lemma_add_mod_noop(at + lost - 1, 1, max_steps);
        let was = (at + lost - 1) % max_steps;
        if max_steps == 1 {
            vstd::arithmetic::div_mod::lemma_small_mod(0, 1);
            vstd::arithmetic::div_mod::lemma_mod_bound(at + lost, max_steps);
        } else {
            vstd::arithmetic::div_mod::lemma_small_mod(1, max_steps as nat);
            if was + 1 < max_steps {
                vstd::arithmetic::div_mod::lemma_small_mod((was + 1) as nat, max_steps as nat);
            } else {
                vstd::arithmetic::div_mod::lemma_mod_self_0(max_steps);
            }
        }
    } else {
        vstd::arithmetic::div_mod::lemma_small_mod(at as nat, max_steps as nat);
    }
}

/// A bucket has a slot for every 1500 bytes, and one at least.
pub proof fn law_slots_are_for_whole_packets(length: int)
    requires
        0 <= length,
    ensures
        slots_for(length) >= 1,
        length >= 1500 ==> slots_for(length) * 1500 <= length < (slots_for(length) + 1) * 1500,
        length < 1500 ==> slots_for(length) == 1,
{
}

/// The slots are used in turn: the one behind a packet is as many slots further as the packet is ahead
/// of the one before it. A late packet does not move it. The step counter counts each packet that
/// comes in its turn, and goes round with the slots.
pub proof fn law_slots_are_used_in_turn(
    before: Bucket,
    after: Bucket,
    pkt: Seq<u8>,
    sn: u16,
    latest: bool,
)
    requires
        before.wf(),
        before.init,
        before.becomes(after, pkt, sn, latest),
    ensures
        latest && sn != before.head_sn ==> after.next == (before.next + (sn - before.head_sn)
            % 0x1_0000) % before.slots(),
        latest ==> after.head_sn == sn,
        latest && (sn - before.head_sn) % 0x1_0000 == 1 ==> after.step == (before.step + 1)
            % before.slots(),
        !latest ==> after.next == before.next && after.head_sn == before.head_sn && after.step == (
        before.step + 1) % before.slots(),
{
    let slots = before.slots();
    let gap = ahead_by(sn, before.head_sn);
    lemma_turn(before.step as int, slots);
    if latest && sn != before.head_sn {
        let at = before.next + gap - 1;
        if gap == 1 {
            vstd::arithmetic::div_mod::lemma_small_mod(before.next as nat, slots as nat);
        }
        assert(before.latest_slot(sn) == at % slots);
        vstd::arithmetic::div_mod::lemma_mod_bound(at, slots);
        lemma_turn(at % slots, slots);
        vstd::arithmetic::div_mod::lemma_add_mod_noop_right(1, at, slots);
        assert((at % slots + 1) % slots == (at + 1) % slots);
    }
}

/// The one behind a slot is the next in the circle.
proof fn lemma_turn(at: int, slots: int)
    requires
        0 <= at < slots,
    ensures
        advance(at, slots - 1) == (at + 1) % slots,
{
    if at + 1 < slots {
        vstd::arithmetic::div_mod::lemma_small_mod((at + 1) as nat, slots as nat);
    } else {
        vstd::arithmetic::div_mod::lemma_mod_self_0(slots);
    }
}

} // verus!
