use vstd::prelude::*;

use crate::bits::{bit_at, has_bit, lemma_no_bit, lemma_set_bit, low16, to_u16};

verus! {

/// How often a lost packet is asked for.
pub const MAX_NACK_TIMES: u8 = 3;

/// A lost packet: its extended sequence number, and how often it was asked for.
#[derive(Debug, Eq, PartialEq, Clone, Copy, Structural)]
pub struct Nack {
    pub seq_number: u32,
    pub nackd: u8,
}

impl Nack {
    pub fn new(seq_number: u32, nackd: u8) -> (nack: Self)
        ensures
            nack == (Nack { seq_number, nackd }),
    {
        Self { seq_number, nackd }
    }
}

/// A lost packet, and which of the 16 packets behind it are lost too.
#[derive(Debug, Eq, PartialEq, Clone, Copy, Structural)]
pub struct NackPair {
    pub packet_id: u16,
    pub lost_packets: u16,
}

impl NackPair {
    /// Whether the pair names the packet with the sequence number `sn`.
    pub open spec fn names(&self, sn: u16) -> bool {
        ||| sn == self.packet_id
        ||| self.packet_id < sn <= self.packet_id + 16 && has_bit(
            self.lost_packets,
            (sn - self.packet_id - 1) as u16,
        )
    }
}

/// Whether the lost packet is asked for when `head` is the extended sequence number of the latest
/// packet: the two packets in front of it may still be on their way.
pub open spec fn is_due(nack: Nack, head: u32) -> bool {
    nack.seq_number < (head - 2) % 0x1_0000_0000
}

/// Whether the lost packet was asked for often enough.
pub open spec fn given_up(nack: Nack) -> bool {
    nack.nackd >= MAX_NACK_TIMES
}

/// The lost packets that can still be asked for.
pub open spec fn survivors(nacks: Seq<Nack>) -> Seq<Nack> {
    nacks.filter(|nack: Nack| !given_up(nack))
}

/// The lost packet after the round in which `head` is the latest packet.
pub open spec fn asked(nack: Nack, head: u32) -> Nack {
    if is_due(nack, head) {
        Nack { nackd: (nack.nackd + 1) as u8, ..nack }
    } else {
        nack
    }
}

/// The lost packets that are asked for when `head` is the latest packet.
pub open spec fn due(nacks: Seq<Nack>, head: u32) -> Seq<Nack> {
    survivors(nacks).filter(|nack: Nack| is_due(nack, head))
}

/// The 16-bit sequence numbers of lost packets.
pub open spec fn short_numbers(nacks: Seq<Nack>) -> Seq<u16> {
    nacks.map_values(|nack: Nack| low16(nack.seq_number))
}

/// The pairs that are complete, and the one that is still open. An open pair with the packet 0
/// stands for none.
pub type Encoding = (Seq<NackPair>, NackPair);

/// Adds the packet `sn` to the open pair, or closes that pair and opens the next one where `sn`
/// is more than 16 packets away.
pub open spec fn encode_next(so_far: Encoding, sn: u16) -> Encoding {
    let (done, open) = so_far;
    if open.packet_id == 0 || sn > (open.packet_id + 16) % 0x1_0000 {
        (
            if open.packet_id != 0 {
                done.push(open)
            } else {
                done
            },
            NackPair { packet_id: sn, lost_packets: 0 },
        )
    } else {
        let bit = ((sn - open.packet_id - 1) % 0x1_0000) as u16;
        (done, NackPair { lost_packets: open.lost_packets | (1u16 << (bit % 16)), ..open })
    }
}

/// The packets `sns`, in pairs.
pub open spec fn encode(sns: Seq<u16>) -> Encoding
    decreases sns.len(),
{
    if sns.len() == 0 {
        (seq![], NackPair { packet_id: 0, lost_packets: 0 })
    } else {
        encode_next(encode(sns.drop_last()), sns.last())
    }
}

/// The pairs of an encoding, with the open one closed.
pub open spec fn closed_pairs(encoding: Encoding) -> Seq<NackPair> {
    let (done, open) = encoding;
    if open.packet_id != 0 {
        done.push(open)
    } else {
        done
    }
}

/// The highest sequence number that was given up, or `floor` where that is higher.
pub open spec fn highest_given_up(nacks: Seq<Nack>, floor: u32) -> u32
    decreases nacks.len(),
{
    if nacks.len() == 0 {
        floor
    } else {
        let before = highest_given_up(nacks.drop_last(), floor);
        if given_up(nacks.last()) && nacks.last().seq_number > before {
            nacks.last().seq_number
        } else {
            before
        }
    }
}

/// The packets that are known to be lost, in the order of their extended sequence numbers.
pub struct NackQueue {
    pub nacks: Vec<Nack>,
    /// The highest sequence number for which a key frame was asked for.
    pub key_frame_seq_number: u32,
}

/// The lost packets, with how often each was asked for.
impl View for NackQueue {
    type V = Map<u32, u8>;

    open spec fn view(&self) -> Map<u32, u8> {
        Map::new(|sn: u32| self.contains(sn), |sn: u32| self.times(sn))
    }
}

impl NackQueue {
    /// No sequence number occurs twice, and they are in order.
    pub open spec fn wf(&self) -> bool {
        forall|i: int, j: int|
            0 <= i < j < self.nacks@.len() ==> self.nacks@[i].seq_number
                < self.nacks@[j].seq_number
    }

    /// Whether the packet is in the queue, at the place `i`.
    pub open spec fn at(&self, i: int, sn: u32) -> bool {
        0 <= i < self.nacks@.len() && self.nacks@[i].seq_number == sn
    }

    /// Whether the packet is in the queue.
    pub open spec fn contains(&self, sn: u32) -> bool {
        exists|i: int| #[trigger] self.at(i, sn)
    }

    /// How often the packet was asked for.
    pub open spec fn times(&self, sn: u32) -> u8 {
        self.nacks@[choose|i: int| #[trigger] self.at(i, sn)].nackd
    }

    /// A packet has one place in the queue.
    proof fn lemma_times(&self, i: int, sn: u32)
        requires
            self.wf(),
            self.at(i, sn),
        ensures
            self.contains(sn),
            self.times(sn) == self.nacks@[i].nackd,
    {
        let j = choose|j: int| #[trigger] self.at(j, sn);
        assert(self.at(j, sn));
        assert(!(i < j) && !(j < i));
    }

    pub fn new() -> (queue: Self)
        ensures
            queue.wf(),
            queue@ == Map::<u32, u8>::empty(),
            queue.nacks@ == Seq::<Nack>::empty(),
            queue.key_frame_seq_number == 0,
    {
        let queue = Self { nacks: Vec::new(), key_frame_seq_number: 0 };
        assert(queue@ =~= Map::<u32, u8>::empty());
        queue
    }

    /// Finds the place of a packet, or where it belongs.
    fn search(&self, sn: u32) -> (res: core::result::Result<usize, usize>)
        requires
            self.wf(),
        ensures
            match res {
                Ok(index) => self.at(index as int, sn),
                Err(index) => {
                    &&& index <= self.nacks@.len()
                    &&& !self.contains(sn)
                    &&& forall|i: int| 0 <= i < index ==> self.nacks@[i].seq_number < sn
                    &&& forall|i: int|
                        index <= i < self.nacks@.len() ==> sn < self.nacks@[i].seq_number
                },
            },
    {
        let mut low: usize = 0;
        let mut high: usize = self.nacks.len();
        while low < high
            invariant
                self.wf(),
                low <= high <= self.nacks@.len(),
                forall|i: int| 0 <= i < low ==> self.nacks@[i].seq_number < sn,
                forall|i: int| high <= i < self.nacks@.len() ==> sn < self.nacks@[i].seq_number,
            decreases high - low,
        {
            let mid: usize = low + (high - low) / 2;
            let found: u32 = self.nacks[mid].seq_number;
            if found == sn {
                assert(self.at(mid as int, sn));
                return Ok(mid);
            } else if found < sn {
                low = mid + 1;
            } else {
                high = mid;
            }
        }
        Err(low)
    }

    /// Adds a lost packet, unless it is known already.
    pub fn push(&mut self, sn: u32)
        requires
            old(self).wf(),
        ensures
            final(self).wf(),
            final(self).key_frame_seq_number == old(self).key_frame_seq_number,
            final(self)@ == if old(self)@.contains_key(sn) {
                old(self)@
            } else {
                old(self)@.insert(sn, 0)
            },
            old(self).contains(sn) ==> final(self).nacks@ == old(self).nacks@,
            !old(self).contains(sn) ==> exists|i: int|
                0 <= i <= old(self).nacks@.len() && final(self).nacks@
                    == #[trigger] old(self).nacks@.insert(i, Nack { seq_number: sn, nackd: 0 }),
    {
        match self.search(sn) {
            Ok(_) => {},
            Err(index) => {
                let ghost queue = *self;
                let ghost before = self.nacks@;
                self.nacks.insert(index, Nack::new(sn, 0));
                assert(self.nacks@ == before.insert(
                    index as int,
                    Nack { seq_number: sn, nackd: 0 },
                ));
                proof {
                    assert forall|other: u32| self@.contains_key(other) <==> queue@.insert(
                        sn,
                        0,
                    ).contains_key(other) by {
                        queue.lemma_inserted(*self, index as int, sn, other);
                    }
                    assert forall|other: u32| #[trigger] self@.contains_key(other) implies self@[other]
                        == queue@.insert(sn, 0)[other] by {
                        queue.lemma_inserted(*self, index as int, sn, other);
                    }
                    assert(self@ =~= queue@.insert(sn, 0));
                }
            },
        }
    }

    /// Inserting a packet adds it and leaves the others as they are.
    proof fn lemma_inserted(&self, after: NackQueue, index: int, sn: u32, other: u32)
        requires
            self.wf(),
            after.wf(),
            0 <= index <= self.nacks@.len(),
            !self.contains(sn),
            after.nacks@ == self.nacks@.insert(index, Nack { seq_number: sn, nackd: 0 }),
        ensures
            after.contains(other) <==> self.contains(other) || other == sn,
            self.contains(other) ==> after.times(other) == self.times(other),
            after.times(sn) == 0,
    {
        assert(after.at(index, sn));
        after.lemma_times(index, sn);
        if self.contains(other) {
            let i = choose|i: int| #[trigger] self.at(i, other);
            assert(self.at(i, other));
            self.lemma_times(i, other);
            let j = if i < index {
                i
            } else {
                i + 1
            };
            assert(after.at(j, other));
            after.lemma_times(j, other);
        }
        if after.contains(other) && other != sn {
            let j = choose|j: int| #[trigger] after.at(j, other);
            assert(after.at(j, other));
            let i = if j < index {
                j
            } else {
                j - 1
            };
            assert(self.at(i, other));
        }
    }

    /// Removing a packet leaves the others as they are.
    proof fn lemma_removed(&self, after: NackQueue, index: int, sn: u32, other: u32)
        requires
            self.wf(),
            after.wf(),
            self.at(index, sn),
            after.nacks@ == self.nacks@.remove(index),
        ensures
            after.contains(other) <==> self.contains(other) && other != sn,
            after.contains(other) ==> after.times(other) == self.times(other),
    {
        if after.contains(other) {
            let j = choose|j: int| #[trigger] after.at(j, other);
            assert(after.at(j, other));
            after.lemma_times(j, other);
            let i = if j < index {
                j
            } else {
                j + 1
            };
            assert(self.at(i, other));
            self.lemma_times(i, other);
            if other == sn {
                assert(!(i < index) && !(index < i));
            }
        }
        if self.contains(other) && other != sn {
            let i = choose|i: int| #[trigger] self.at(i, other);
            assert(self.at(i, other));
            let j = if i < index {
                i
            } else {
                i - 1
            };
            assert(after.at(j, other));
        }
    }

    /// Takes a packet out of the queue that is no longer lost.
    pub fn remove(&mut self, sn: u32) -> (res: Option<Nack>)
        requires
            old(self).wf(),
        ensures
            final(self).wf(),
            final(self).key_frame_seq_number == old(self).key_frame_seq_number,
            final(self)@ == old(self)@.remove(sn),
            match res {
                None => !old(self).contains(sn) && final(self).nacks@ == old(self).nacks@,
                Some(nack) => exists|i: int| #[trigger]
                    old(self).at(i, sn) && nack == old(self).nacks@[i] && final(self).nacks@
                        == old(self).nacks@.remove(i),
            },
    {
        match self.search(sn) {
            Ok(index) => {
                let ghost before = *self;
                let nack = self.nacks.remove(index);
                proof {
                    assert(before.at(index as int, sn));
                    assert(self.nacks@ == before.nacks@.remove(index as int));
                    assert forall|other: u32| self@.contains_key(other) <==> before@.remove(sn).contains_key(
                        other,
                    ) by {
                        before.lemma_removed(*self, index as int, sn, other);
                    }
                    assert forall|other: u32| #[trigger] self@.contains_key(other) implies self@[other]
                        == before@.remove(sn)[other] by {
                        before.lemma_removed(*self, index as int, sn, other);
                    }
                    assert(self@ =~= before@.remove(sn));
                }
                Some(nack)
            },
            Err(_) => {
                assert(self@.remove(sn) =~= self@);
                None
            },
        }
    }

    /// Whether `after` is this queue once the lost packets were asked for, where `head` is the
    /// latest packet.
    pub open spec fn after_round(&self, after: NackQueue, head: u32) -> bool {
        &&& after.nacks@ == survivors(self.nacks@).map_values(|nack: Nack| asked(nack, head))
        &&& after.key_frame_seq_number == highest_given_up(self.nacks@, self.key_frame_seq_number)
    }

    /// The packets to ask for, in pairs, where `head` is the latest packet.
    pub open spec fn pairs_of_round(&self, head: u32) -> Seq<NackPair> {
        closed_pairs(encode(short_numbers(due(self.nacks@, head))))
    }

    /// Asks for the lost packets once more, where `head_seq_number` is the extended sequence
    /// number of the latest packet.
    ///
    /// Packets that were asked for [MAX_NACK_TIMES] times leave the queue.
    ///
    /// # Returns
    /// - The packets to ask for, in pairs, or [None] if no packet is lost.
    /// - Whether to ask for a key frame, because a packet was given up that is newer than the last
    ///   one for which a key frame was asked for.
    pub fn pairs(&mut self, head_seq_number: u32) -> (res: (Option<Vec<NackPair>>, bool))
        requires
            old(self).wf(),
        ensures
            final(self).wf(),
            old(self).after_round(*final(self), head_seq_number),
            res.1 == (final(self).key_frame_seq_number != old(self).key_frame_seq_number),
            res.0 is None <==> old(self).nacks@.len() == 0,
            res.0 matches Some(pairs) ==> pairs@ == old(self).pairs_of_round(head_seq_number),
            res.0 is None ==> old(self).pairs_of_round(head_seq_number).len() == 0,
    {
        let ghost before = self.nacks@;
        let ghost floor = self.key_frame_seq_number;
        let ghost f = |nack: Nack| asked(nack, head_seq_number);
        if self.nacks.len() == 0 {
            proof {
                reveal(Seq::filter);
                assert(survivors(before).map_values(f) =~= before);
                assert(short_numbers(due(before, head_seq_number)) =~= Seq::<u16>::empty());
            }
            return (None, false);
        }
        let mut np = NackPair { packet_id: 0, lost_packets: 0 };
        let mut nps: Vec<NackPair> = Vec::new();
        let mut ask_key_frame: bool = false;
        let mut idx: usize = 0;
        let limit: u32 = head_seq_number.wrapping_sub(2);
        // The packets of the queue as it was that are behind us
        let ghost mut seen: int = 0;
        proof {
            reveal(Seq::filter);
            assert(before.take(0) =~= Seq::<Nack>::empty());
            assert(short_numbers(due(before.take(0), head_seq_number)) =~= Seq::<u16>::empty());
            assert(self.nacks@ =~= survivors(before.take(0)).map_values(f) + before.skip(0));
        }
        while idx < self.nacks.len()
            invariant
                f == |nack: Nack| asked(nack, head_seq_number),
                limit == (head_seq_number - 2) % 0x1_0000_0000,
                0 <= seen <= before.len(),
                idx == survivors(before.take(seen)).len(),
                self.nacks@ == survivors(before.take(seen)).map_values(f) + before.skip(seen),
                self.key_frame_seq_number == highest_given_up(before.take(seen), floor),
                self.key_frame_seq_number >= floor,
                ask_key_frame == (self.key_frame_seq_number != floor),
                (nps@, np) == encode(short_numbers(due(before.take(seen), head_seq_number))),
            decreases before.len() - seen,
        {
            let nack: Nack = self.nacks[idx];
            let ghost now = before.take(seen + 1);
            let ghost was = before.take(seen);
            proof {
                assert(seen < before.len());
                assert(nack == before[seen]);
                assert(now.drop_last() =~= was);
                assert(now =~= was.push(nack));
                lemma_one_more(was, nack, head_seq_number);
            }
            if nack.nackd >= MAX_NACK_TIMES {
                if nack.seq_number > self.key_frame_seq_number {
                    self.key_frame_seq_number = nack.seq_number;
                    ask_key_frame = true;
                }
                self.nacks.remove(idx);
                proof {
                    assert(self.nacks@ =~= survivors(now).map_values(f) + before.skip(seen + 1));
                    seen = seen + 1;
                }
                continue ;
            }
            assert(self.nacks@.update(idx as int, asked(nack, head_seq_number)) =~= survivors(
                now,
            ).map_values(f) + before.skip(seen + 1));
            if nack.seq_number >= limit {
                proof {
                    assert(self.nacks@ =~= self.nacks@.update(idx as int, nack));
                    seen = seen + 1;
                }
                idx = idx + 1;
                continue ;
            }
            self.nacks.set(idx, Nack { seq_number: nack.seq_number, nackd: nack.nackd + 1 });
            idx = idx + 1;
            np = add_to_pairs(&mut nps, np, to_u16(nack.seq_number));
            proof {
                seen = seen + 1;
            }
        }
        proof {
            assert(seen == before.len()) by {
                assert(self.nacks@.len() == survivors(before.take(seen)).len() + before.len()
                    - seen);
            }
            assert(before.take(seen) =~= before);
            assert(self.nacks@ =~= survivors(before).map_values(f));
            lemma_round_keeps_order(before, head_seq_number);
        }
        if np.packet_id != 0 {
            nps.push(np);
        }
        (Some(nps), ask_key_frame)
    }
}

/// Adds the packet `sn` to the open pair `np`, or closes that pair and opens the next one.
///
/// # Returns
/// - The pair that is open
fn add_to_pairs(nps: &mut Vec<NackPair>, np: NackPair, sn: u16) -> (open: NackPair)
    ensures
        (final(nps)@, open) == encode_next((old(nps)@, np), sn),
{
    if np.packet_id == 0 || sn > np.packet_id.wrapping_add(16) {
        if np.packet_id != 0 {
            nps.push(np);
        }
        NackPair { packet_id: sn, lost_packets: 0 }
    } else {
        let bit: u16 = sn.wrapping_sub(np.packet_id).wrapping_sub(1);
        NackPair { packet_id: np.packet_id, lost_packets: np.lost_packets | bit_at(bit) }
    }
}

/// What one more lost packet adds to those that stay and to those that are asked for.
proof fn lemma_one_more(nacks: Seq<Nack>, nack: Nack, head: u32)
    ensures
        survivors(nacks.push(nack)) == if given_up(nack) {
            survivors(nacks)
        } else {
            survivors(nacks).push(nack)
        },
        due(nacks.push(nack), head) == if !given_up(nack) && is_due(nack, head) {
            due(nacks, head).push(nack)
        } else {
            due(nacks, head)
        },
        encode(short_numbers(due(nacks.push(nack), head))) == if !given_up(nack) && is_due(
            nack,
            head,
        ) {
            encode_next(encode(short_numbers(due(nacks, head))), low16(nack.seq_number))
        } else {
            encode(short_numbers(due(nacks, head)))
        },
{
    nacks.lemma_filter_push(nack, |nack: Nack| !given_up(nack));
    survivors(nacks).lemma_filter_push(nack, |nack: Nack| is_due(nack, head));
    if !given_up(nack) && is_due(nack, head) {
        let sns = short_numbers(due(nacks, head).push(nack));
        assert(sns.drop_last() =~= short_numbers(due(nacks, head)));
        assert(sns.last() == low16(nack.seq_number));
    }
}

/// Strictly ascending sequence numbers.
pub open spec fn ascending(nacks: Seq<Nack>) -> bool {
    forall|i: int, j: int|
        0 <= i < j < nacks.len() ==> nacks[i].seq_number < nacks[j].seq_number
}

/// A round leaves the sequence numbers in order.
proof fn lemma_round_keeps_order(nacks: Seq<Nack>, head: u32)
    requires
        ascending(nacks),
    ensures
        ascending(survivors(nacks)),
        ascending(survivors(nacks).map_values(|nack: Nack| asked(nack, head))),
        ascending(due(nacks, head)),
{
    lemma_filter_ascending(nacks, |nack: Nack| !given_up(nack));
    lemma_filter_ascending(survivors(nacks), |nack: Nack| is_due(nack, head));
}

proof fn lemma_filter_ascending(nacks: Seq<Nack>, pred: spec_fn(Nack) -> bool)
    requires
        ascending(nacks),
    ensures
        ascending(nacks.filter(pred)),
        forall|i: int|
            0 <= i < nacks.filter(pred).len() ==> nacks.contains(#[trigger] nacks.filter(pred)[i]),
    decreases nacks.len(),
{
    reveal(Seq::filter);
    if nacks.len() > 0 {
        let shorter = nacks.drop_last();
        lemma_filter_ascending(shorter, pred);
        let rest = shorter.filter(pred);
        assert forall|i: int| 0 <= i < rest.len() implies (#[trigger] rest[i]).seq_number
            < nacks.last().seq_number && nacks.contains(rest[i]) by {
            let k = choose|k: int| 0 <= k < shorter.len() && shorter[k] == rest[i];
            assert(nacks[k] == rest[i]);
        }
        assert(nacks.contains(nacks.last()));
    }
}

/// Whether one of the pairs names the packet `sn`.
pub open spec fn named(pairs: Seq<NackPair>, sn: u16) -> bool {
    exists|i: int| 0 <= i < pairs.len() && (#[trigger] pairs[i]).names(sn)
}

/// Whether just one of the pairs names the packet `sn`.
pub open spec fn named_once(pairs: Seq<NackPair>, sn: u16) -> bool {
    exists|i: int|
        0 <= i < pairs.len() && (#[trigger] pairs[i]).names(sn) && forall|j: int|
            0 <= j < pairs.len() && (#[trigger] pairs[j]).names(sn) ==> j == i
}

/// The packets of one turn of the 16-bit sequence numbers, without the packet 0.
pub open spec fn one_turn(nacks: Seq<Nack>) -> bool {
    &&& forall|i: int| 0 <= i < nacks.len() ==> #[trigger] low16(nacks[i].seq_number) != 0
    &&& forall|i: int, j: int|
        0 <= i < nacks.len() && 0 <= j < nacks.len() ==> nacks[i].seq_number / 0x1_0000
            == nacks[j].seq_number / 0x1_0000
}

/// The pairs of a round name the packets that are due, and no others. A pair cannot name the
/// packet 0 or reach from one turn of the sequence numbers into the next.
pub proof fn law_pairs_name_the_due_packets(queue: NackQueue, head: u32, sn: u16)
    requires
        queue.wf(),
        one_turn(due(queue.nacks@, head)),
    ensures
        named(queue.pairs_of_round(head), sn) <==> short_numbers(
            due(queue.nacks@, head),
        ).contains(sn),
{
    lemma_one_turn(queue, head);
    lemma_encode_names(short_numbers(due(queue.nacks@, head)));
}

/// Each packet that is due is named by one pair of a round, and the pairs are in the order of their
/// packets.
pub proof fn law_each_due_packet_is_named_once(queue: NackQueue, head: u32)
    requires
        queue.wf(),
        one_turn(due(queue.nacks@, head)),
    ensures
        forall|i: int, j: int|
            0 <= i < j < queue.pairs_of_round(head).len() ==> queue.pairs_of_round(
                head,
            )[i].packet_id < queue.pairs_of_round(head)[j].packet_id,
        forall|sn: u16| #[trigger]
            short_numbers(due(queue.nacks@, head)).contains(sn) ==> named_once(
                queue.pairs_of_round(head),
                sn,
            ),
{
    let sns = short_numbers(due(queue.nacks@, head));
    let pairs = queue.pairs_of_round(head);
    lemma_one_turn(queue, head);
    lemma_encode_names(sns);
    lemma_encode_order(sns);
    assert forall|sn: u16| #[trigger] sns.contains(sn) implies named_once(pairs, sn) by {
        assert(named(pairs, sn));
        let i = choose|i: int| 0 <= i < pairs.len() && (#[trigger] pairs[i]).names(sn);
        assert forall|j: int|
            0 <= j < pairs.len() && (#[trigger] pairs[j]).names(sn) implies j == i by {
            if i < j {
                assert(sn < pairs[j].packet_id);
            } else if j < i {
                assert(sn < pairs[i].packet_id);
            }
        }
    }
}

/// No list of pairs that names all packets that are due is shorter than the pairs of a round. A pair
/// that starts with one of the last 16 numbers of a turn takes in no other packet, so there is to be
/// at most one such pair.
pub proof fn law_no_shorter_list_names_the_due_packets(
    queue: NackQueue,
    head: u32,
    others: Seq<NackPair>,
)
    requires
        queue.wf(),
        one_turn(due(queue.nacks@, head)),
        ({
            let pairs = queue.pairs_of_round(head);
            pairs.len() >= 2 ==> pairs[pairs.len() - 2].packet_id + 16 < 0x1_0000
        }),
        forall|sn: u16| #[trigger]
            short_numbers(due(queue.nacks@, head)).contains(sn) ==> named(others, sn),
    ensures
        queue.pairs_of_round(head).len() <= others.len(),
{
    let sns = short_numbers(due(queue.nacks@, head));
    let pairs = queue.pairs_of_round(head);
    lemma_one_turn(queue, head);
    lemma_encode_order(sns);
    let ids = pairs.map_values(|pair: NackPair| pair.packet_id);
    assert forall|i: int| 0 <= i < ids.len() implies named(others, #[trigger] ids[i]) by {
        assert(sns.contains(pairs[i].packet_id));
    }
    assert forall|i: int, j: int| 0 <= i < j < ids.len() implies ids[i] + 16 < ids[j] by {
        assert(pairs[i].packet_id <= pairs[pairs.len() - 2].packet_id);
    }
    lemma_one_pair_for_each(ids, others);
}

/// The short numbers of the packets of one turn are in order too.
proof fn lemma_one_turn(queue: NackQueue, head: u32)
    requires
        queue.wf(),
        one_turn(due(queue.nacks@, head)),
    ensures
        ascending_numbers(short_numbers(due(queue.nacks@, head))),
{
    let nacks = due(queue.nacks@, head);
    lemma_round_keeps_order(queue.nacks@, head);
    let sns = short_numbers(nacks);
    assert forall|i: int, j: int| 0 <= i < j < sns.len() implies sns[i] < sns[j] by {
        assert(nacks[i].seq_number < nacks[j].seq_number);
        assert(nacks[i].seq_number / 0x1_0000 == nacks[j].seq_number / 0x1_0000);
    }
    assert forall|i: int| 0 <= i < sns.len() implies sns[i] != 0 by {
        assert(low16(nacks[i].seq_number) != 0);
    }
}

/// Numbers that are more than 16 apart need a pair each.
proof fn lemma_one_pair_for_each(ids: Seq<u16>, pairs: Seq<NackPair>)
    requires
        forall|i: int, j: int| 0 <= i < j < ids.len() ==> ids[i] + 16 < ids[j],
        forall|i: int| 0 <= i < ids.len() ==> named(pairs, #[trigger] ids[i]),
    ensures
        ids.len() <= pairs.len(),
    decreases ids.len(),
{
    if ids.len() > 0 {
        let last = ids.last();
        assert(named(pairs, ids[ids.len() - 1]));
        let k = choose|k: int| 0 <= k < pairs.len() && (#[trigger] pairs[k]).names(last);
        let rest = pairs.remove(k);
        let shorter = ids.drop_last();
        assert forall|i: int| 0 <= i < shorter.len() implies named(rest, #[trigger] shorter[i]) by {
            assert(named(pairs, ids[i]));
            let at = choose|at: int| 0 <= at < pairs.len() && (#[trigger] pairs[at]).names(ids[i]);
            assert(ids[i] + 16 < ids[ids.len() - 1]);
            assert(at != k);
            assert(rest[if at < k {
                at
            } else {
                at - 1
            }] == pairs[at]);
        }
        lemma_one_pair_for_each(shorter, rest);
    }
}

/// Strictly ascending numbers, without 0.
spec fn ascending_numbers(sns: Seq<u16>) -> bool {
    &&& forall|i: int, j: int| 0 <= i < j < sns.len() ==> sns[i] < sns[j]
    &&& forall|i: int| 0 <= i < sns.len() ==> sns[i] != 0
}

/// The pairs of encoded packets are in order, and each names only packets in front of the next pair.
/// Where the next pair is in reach, it is more than 16 packets away.
proof fn lemma_encode_order(sns: Seq<u16>)
    requires
        ascending_numbers(sns),
    ensures
        ({
            let pairs = closed_pairs(encode(sns));
            &&& forall|i: int| 0 <= i < pairs.len() ==> sns.contains(#[trigger] pairs[i].packet_id)
            &&& forall|i: int, j: int|
                0 <= i < j < pairs.len() ==> pairs[i].packet_id < pairs[j].packet_id
            &&& forall|i: int, j: int|
                0 <= i < j < pairs.len() && pairs[i].packet_id + 16 < 0x1_0000
                    ==> pairs[i].packet_id + 16 < pairs[j].packet_id
            &&& forall|i: int, j: int, sn: u16|
                #![trigger pairs[i].names(sn), pairs[j]]
                0 <= i < j < pairs.len() && pairs[i].names(sn) ==> sn < pairs[j].packet_id
            &&& forall|i: int, sn: u16|
                0 <= i < pairs.len() && #[trigger] pairs[i].names(sn) ==> sn <= sns.last()
        }),
    decreases sns.len(),
{
    if sns.len() == 0 {
        assert(closed_pairs(encode(sns)) =~= seq![]);
    } else {
        let shorter = sns.drop_last();
        lemma_encode_order(shorter);
        lemma_encode_names(shorter);
        let (done, open) = encode(shorter);
        let last = sns.last();
        let before = closed_pairs(encode(shorter));
        let after = closed_pairs(encode(sns));
        assert(sns[sns.len() - 1] == last);
        if shorter.len() > 0 {
            assert(shorter.last() < last);
            assert(before.last() == open);
        }
        assert forall|sn: u16| #[trigger] shorter.contains(sn) implies sns.contains(sn) by {
            let i = choose|i: int| 0 <= i < shorter.len() && shorter[i] == sn;
            assert(sns[i] == sn);
        }
        if open.packet_id == 0 || last > (open.packet_id + 16) % 0x1_0000 {
            let pair = NackPair { packet_id: last, lost_packets: 0 };
            assert(after =~= before.push(pair));
            assert forall|sn: u16| #[trigger] pair.names(sn) implies sn == last by {
                if last < sn <= last + 16 {
                    lemma_no_bit((sn - last - 1) as u16);
                }
            }
        } else {
            let k = (last - open.packet_id - 1) as u16;
            let grown = NackPair { lost_packets: open.lost_packets | (1u16 << k), ..open };
            assert(k % 16 == k);
            assert(encode(sns) == (done, grown));
            assert(after =~= before.update(before.len() - 1, grown));
            assert forall|sn: u16| #[trigger]
                grown.names(sn) implies open.names(sn) || sn == last by {
                if open.packet_id < sn <= open.packet_id + 16 {
                    lemma_set_bit(open.lost_packets, k, (sn - open.packet_id - 1) as u16);
                }
            }
        }
    }
}

/// Encoded packets are named, and no others.
proof fn lemma_encode_names(sns: Seq<u16>)
    requires
        ascending_numbers(sns),
    ensures
        sns.len() > 0 ==> 0 < encode(sns).1.packet_id <= sns.last(),
        sns.len() == 0 ==> encode(sns).1.packet_id == 0,
        forall|sn: u16| #[trigger] named(closed_pairs(encode(sns)), sn) <==> sns.contains(sn),
    decreases sns.len(),
{
    if sns.len() == 0 {
        assert(closed_pairs(encode(sns)) =~= seq![]);
    } else {
        let shorter = sns.drop_last();
        lemma_encode_names(shorter);
        let (done, open) = encode(shorter);
        let last = sns.last();
        let before = closed_pairs(encode(shorter));
        let after = closed_pairs(encode(sns));
        if shorter.len() > 0 {
            assert(shorter.last() < last);
        }
        let fresh = open.packet_id == 0 || last > (open.packet_id + 16) % 0x1_0000;
        assert forall|sn: u16| #[trigger] named(after, sn) <==> sns.contains(sn) by {
            assert(sns.contains(sn) <==> shorter.contains(sn) || sn == last) by {
                if sns.contains(sn) && sn != last {
                    let i = choose|i: int| 0 <= i < sns.len() && sns[i] == sn;
                    assert(shorter[i] == sn);
                }
                if shorter.contains(sn) {
                    let i = choose|i: int| 0 <= i < shorter.len() && shorter[i] == sn;
                    assert(sns[i] == sn);
                }
                assert(sns[sns.len() - 1] == last);
            }
            if fresh {
                let pair = NackPair { packet_id: last, lost_packets: 0 };
                assert(after =~= before.push(pair));
                if last < sn <= last + 16 {
                    lemma_no_bit((sn - last - 1) as u16);
                }
                assert(pair.names(sn) <==> sn == last);
                lemma_named_push(before, pair, sn);
            } else {
                let k = (last - open.packet_id - 1) as u16;
                let grown = NackPair { lost_packets: open.lost_packets | (1u16 << k), ..open };
                assert(k % 16 == k);
                assert(encode(sns) == (done, grown));
                if open.packet_id < sn <= open.packet_id + 16 {
                    lemma_set_bit(open.lost_packets, k, (sn - open.packet_id - 1) as u16);
                }
                assert(grown.names(sn) <==> open.names(sn) || sn == last);
                lemma_named_push(done, open, sn);
                lemma_named_push(done, grown, sn);
            }
        }
    }
}

proof fn lemma_named_push(pairs: Seq<NackPair>, pair: NackPair, sn: u16)
    ensures
        named(pairs.push(pair), sn) <==> named(pairs, sn) || pair.names(sn),
{
    let longer = pairs.push(pair);
    if named(pairs, sn) {
        let i = choose|i: int| 0 <= i < pairs.len() && (#[trigger] pairs[i]).names(sn);
        assert(longer[i].names(sn));
    }
    if pair.names(sn) {
        assert(longer[pairs.len() as int].names(sn));
    }
    if named(longer, sn) && !pair.names(sn) {
        let i = choose|i: int| 0 <= i < longer.len() && (#[trigger] longer[i]).names(sn);
        assert(pairs[i].names(sn));
    }
}

/// No packet is asked for more than [MAX_NACK_TIMES] times.
pub proof fn law_asked_at_most_three_times(queue: NackQueue, head: u32, i: int)
    requires
        0 <= i < survivors(queue.nacks@).len(),
    ensures
        asked(survivors(queue.nacks@)[i], head).nackd <= MAX_NACK_TIMES,
{
    queue.nacks@.lemma_filter_pred(|nack: Nack| !given_up(nack), i);
}

/// A lost packet is asked for as soon as three newer packets have come, but not while it is one of
/// the last two in front of the latest one.
pub proof fn law_recent_packets_are_waited_for(nack: Nack, head: u32)
    requires
        head >= 2,
    ensures
        is_due(nack, head) <==> nack.seq_number + 2 < head,
{
}

/// In each round a lost packet that was asked for less than three times stays, with one more time on
/// its account where it is due. One that was asked for three times is dropped.
pub proof fn law_round_counts_each_packet(queue: NackQueue, after: NackQueue, head: u32, i: int)
    requires
        queue.wf(),
        queue.after_round(after, head),
        0 <= i < queue.nacks@.len(),
        head >= 2,
    ensures
        ({
            let nack = queue.nacks@[i];
            &&& nack.nackd < 3 && nack.seq_number + 2 < head ==> after.nacks@.contains(
                Nack { seq_number: nack.seq_number, nackd: (nack.nackd + 1) as u8 },
            )
            &&& nack.nackd < 3 && nack.seq_number + 2 >= head ==> after.nacks@.contains(nack)
            &&& nack.nackd >= 3 ==> forall|k: int|
                0 <= k < after.nacks@.len() ==> (#[trigger] after.nacks@[k]).seq_number
                    != nack.seq_number
            &&& nack.nackd < 3 && nack.seq_number + 2 < head ==> due(queue.nacks@, head).contains(
                nack,
            )
        }),
{
    let nack = queue.nacks@[i];
    let keep = |nack: Nack| !given_up(nack);
    let stay = survivors(queue.nacks@);
    if nack.nackd < 3 {
        assert(keep(nack));
        queue.nacks@.lemma_filter_contains(keep, i);
        let k = choose|k: int| 0 <= k < stay.len() && stay[k] == nack;
        assert(after.nacks@[k] == asked(nack, head));
        if nack.seq_number + 2 < head {
            stay.lemma_filter_contains(|nack: Nack| is_due(nack, head), k);
        }
    } else {
        assert forall|k: int| 0 <= k < after.nacks@.len() implies (
        #[trigger] after.nacks@[k]).seq_number != nack.seq_number by {
            lemma_filter_ascending(queue.nacks@, keep);
            queue.nacks@.lemma_filter_pred(keep, k);
            assert(queue.nacks@.contains(stay[k]));
            let j = choose|j: int| 0 <= j < queue.nacks@.len() && queue.nacks@[j] == stay[k];
            assert(j != i);
            assert(queue.nacks@[j].seq_number != queue.nacks@[i].seq_number);
        }
    }
}

/// A key frame is asked for where a packet is given up that is newer than the last one for which one
/// was asked for, and not otherwise.
pub proof fn law_key_frame_for_a_packet_given_up(nacks: Seq<Nack>, floor: u32)
    ensures
        highest_given_up(nacks, floor) >= floor,
        highest_given_up(nacks, floor) != floor <==> exists|i: int|
            0 <= i < nacks.len() && (#[trigger] nacks[i]).nackd >= 3 && nacks[i].seq_number > floor,
        forall|i: int|
            0 <= i < nacks.len() && (#[trigger] nacks[i]).nackd >= 3 ==> nacks[i].seq_number
                <= highest_given_up(nacks, floor),
    decreases nacks.len(),
{
    if nacks.len() > 0 {
        let shorter = nacks.drop_last();
        law_key_frame_for_a_packet_given_up(shorter, floor);
        let last = nacks.last();
        assert(nacks[nacks.len() - 1] == last);
        assert forall|i: int| 0 <= i < nacks.len() && (#[trigger] nacks[i]).nackd >= 3 implies nacks[i].seq_number
            <= highest_given_up(nacks, floor) by {
            if i < shorter.len() {
                assert(shorter[i] == nacks[i]);
            }
        }
        if highest_given_up(nacks, floor) != floor && highest_given_up(shorter, floor) != floor {
            let i = choose|i: int|
                0 <= i < shorter.len() && (#[trigger] shorter[i]).nackd >= 3
                    && shorter[i].seq_number > floor;
            assert(nacks[i] == shorter[i]);
        }
        if exists|i: int|
            0 <= i < nacks.len() && (#[trigger] nacks[i]).nackd >= 3 && nacks[i].seq_number
                > floor {
            let i = choose|i: int|
                0 <= i < nacks.len() && (#[trigger] nacks[i]).nackd >= 3 && nacks[i].seq_number
                    > floor;
            if i < shorter.len() {
                assert(shorter[i] == nacks[i]);
            }
        }
    }
}

/// A round remembers the newest packet that it gave up, where that is newer than the one it remembered
/// before, and nothing else.
pub proof fn law_round_remembers_what_it_gave_up(before: NackQueue, after: NackQueue, head: u32)
    requires
        before.after_round(after, head),
    ensures
        after.key_frame_seq_number >= before.key_frame_seq_number,
        after.key_frame_seq_number != before.key_frame_seq_number <==> exists|i: int|
            0 <= i < before.nacks@.len() && (#[trigger] before.nacks@[i]).nackd >= 3
                && before.nacks@[i].seq_number > before.key_frame_seq_number,
        forall|i: int|
            0 <= i < before.nacks@.len() && (#[trigger] before.nacks@[i]).nackd >= 3
                ==> before.nacks@[i].seq_number <= after.key_frame_seq_number,
{
    law_key_frame_for_a_packet_given_up(before.nacks@, before.key_frame_seq_number);
}

} // verus!
