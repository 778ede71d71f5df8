use vstd::prelude::*;

use crate::text::{clone_all, same, same_all, views};

verus! {

/// A stream whose voice is observed.
pub struct AudioStream {
    pub id: String,
    pub sum: i32,
    pub total: i32,
}

/// Audio observer for audio activity detection.
pub struct AudioObserver {
    pub streams: Vec<AudioStream>,
    /// Expected **total audio power** an audio stream should have to be considered active.
    pub expected: i32,
    /// In each observation interval, if the audio level is lower than `threshold`, audio power is accumulated.
    pub threshold: u8,
    /// Interval in milliseconds between each calculation of audio activity.
    pub interval: i32,
    pub previous: Vec<String>,
}

/// `n` as a 32-bit number, wrapped around.
pub open spec fn wrapped(n: int) -> i32 {
    let low = n % 0x1_0000_0000;
    if low >= 0x8000_0000 {
        (low - 0x1_0000_0000) as i32
    } else {
        low as i32
    }
}

/// `n` within the given limits.
pub open spec fn limited(n: int, low: int, high: int) -> int {
    if n < low {
        low
    } else if n > high {
        high
    } else {
        n
    }
}

/// `n / d`, rounded towards zero.
pub open spec fn quotient(n: int, d: int) -> int {
    if n >= 0 {
        n / d
    } else {
        -((-n) / d)
    }
}

/// Whether stream `a` goes in front of stream `b`: it was heard more often, or as often and with
/// a higher sum.
pub open spec fn in_front(a: AudioStream, b: AudioStream) -> bool {
    a.total > b.total || a.total == b.total && a.sum > b.sum
}

/// Puts `stream` behind the last of the streams that it does not go in front of.
pub open spec fn put_in(streams: Seq<AudioStream>, stream: AudioStream) -> Seq<AudioStream>
    decreases streams.len(),
{
    if streams.len() == 0 || !in_front(stream, streams.last()) {
        streams.push(stream)
    } else {
        put_in(streams.drop_last(), stream).push(streams.last())
    }
}

/// The streams sorted by total, and secondly by sum, the highest first. Streams with the same
/// total and sum keep their order.
pub open spec fn ranked(streams: Seq<AudioStream>) -> Seq<AudioStream>
    decreases streams.len(),
{
    if streams.len() == 0 {
        streams
    } else {
        put_in(ranked(streams.drop_last()), streams.last())
    }
}

/// The ids of the streams that were heard often enough.
pub open spec fn active_ids(streams: Seq<AudioStream>, expected: i32) -> Seq<Seq<char>>
    decreases streams.len(),
{
    if streams.len() == 0 {
        seq![]
    } else {
        let others = active_ids(streams.drop_last(), expected);
        if streams.last().total >= expected {
            others.push(streams.last().id@)
        } else {
            others
        }
    }
}

/// The place of the first stream with the given id, or the number of streams.
pub open spec fn place_of(streams: Seq<AudioStream>, id: Seq<char>) -> int
    decreases streams.len(),
{
    if streams.len() == 0 || streams[0].id@ == id {
        0
    } else {
        1 + place_of(streams.skip(1), id)
    }
}

/// How often a stream must be heard in an interval to be considered active.
pub open spec fn expected_power(interval: i32, filter: i32) -> int {
    quotient(wrapped(interval * limited(filter as int, 0, 100)) as int, 2000)
}

impl AudioObserver {
    /// Creates an audio observer with threshold lower than 128, an interval in milliseconds, and a filter from 0 to 100.
    pub fn new(threshold_parameter: u8, interval_parameter: i32, filter_parameter: i32) -> (observer:
        Self)
        ensures
            observer.threshold == limited(threshold_parameter as int, 0, 127),
            observer.interval == interval_parameter,
            observer.expected == expected_power(interval_parameter, filter_parameter),
            observer.streams@.len() == 0,
            observer.previous@.len() == 0,
    {
        let threshold: u8 = if threshold_parameter > 127 {
            127
        } else {
            threshold_parameter
        };
        let filter: i32 = if filter_parameter < 0 {
            0
        } else if filter_parameter > 100 {
            100
        } else {
            filter_parameter
        };
        let power: i64 = interval_parameter.wrapping_mul(filter) as i64;
        let expected: i64 = if power >= 0 {
            power / 2000
        } else {
            -((-power) / 2000)
        };
        Self {
            threshold,
            interval: interval_parameter,
            expected: expected as i32,
            streams: Vec::new(),
            previous: Vec::new(),
        }
    }

    pub fn add_stream(&mut self, stream_id: String)
        ensures
            *final(self) == (AudioObserver { streams: final(self).streams, ..*old(self) }),
            final(self).streams@ == old(self).streams@.push(
                AudioStream { id: stream_id, sum: 0, total: 0 },
            ),
    {
        self.streams.push(AudioStream { id: stream_id, sum: 0, total: 0 });
    }

    pub fn remove_stream(&mut self, stream_id: &str)
        ensures
            *final(self) == (AudioObserver { streams: final(self).streams, ..*old(self) }),
            final(self).streams@ == old(self).streams@.filter(
                |stream: AudioStream| stream.id@ != stream_id@,
            ),
    {
        let ghost before = self.streams@;
        let ghost keep = |stream: AudioStream| stream.id@ != stream_id@;
        let mut i: usize = 0;
        let ghost mut seen: int = 0;
        proof {
            reveal(Seq::filter);
            assert(before.take(0).filter(keep) =~= Seq::<AudioStream>::empty());
            assert(self.streams@ =~= before.take(0).filter(keep) + before.skip(0));
        }
        while i < self.streams.len()
            invariant
                keep == (|stream: AudioStream| stream.id@ != stream_id@),
                *self == (AudioObserver { streams: self.streams, ..*old(self) }),
                0 <= seen <= before.len(),
                i == before.take(seen).filter(keep).len(),
                self.streams@ == before.take(seen).filter(keep) + before.skip(seen),
            decreases before.len() - seen,
        {
            proof {
                assert(self.streams@[i as int] == before[seen]);
                assert(before.take(seen + 1) =~= before.take(seen).push(before[seen]));
                before.take(seen).lemma_filter_push(before[seen], keep);
            }
            if same(self.streams[i].id.as_str(), stream_id) {
                let _removed = self.streams.remove(i);
            } else {
                i = i + 1;
            }
            proof {
                seen = seen + 1;
                assert(self.streams@ =~= before.take(seen).filter(keep) + before.skip(seen));
            }
        }
        assert(before.take(seen) =~= before);
        assert(before.skip(seen) =~= Seq::<AudioStream>::empty());
        assert(self.streams@ =~= before.filter(keep));
    }

    /// Whether `after` is this observer once a level was observed on a stream.
    pub open spec fn observed(&self, after: AudioObserver, stream_id: Seq<char>, d_bov: u8) -> bool {
        let at = place_of(self.streams@, stream_id);
        &&& after == AudioObserver { streams: after.streams, ..*self }
        &&& after.streams@ == if at < self.streams@.len() && d_bov <= self.threshold {
            let stream = self.streams@[at];
            self.streams@.update(
                at,
                AudioStream {
                    sum: wrapped(stream.sum + d_bov),
                    total: wrapped(stream.total + 1),
                    ..stream
                },
            )
        } else {
            self.streams@
        }
    }

    /// Observes whether `d_bov` is higher than threshold for target stream, then it should be ignored.
    ///
    /// If `d_bov` is lower or equal than treshold, it sums `d_bov` into target stream.
    pub fn observe(&mut self, stream_id: &str, d_bov: u8)
        ensures
            *final(self) == (AudioObserver { streams: final(self).streams, ..*old(self) }),
            ({
                let at = place_of(old(self).streams@, stream_id@);
                if at < old(self).streams@.len() && d_bov <= old(self).threshold {
                    let stream = old(self).streams@[at];
                    final(self).streams@ == old(self).streams@.update(
                        at,
                        AudioStream {
                            sum: wrapped(stream.sum + d_bov),
                            total: wrapped(stream.total + 1),
                            ..stream
                        },
                    )
                } else {
                    final(self).streams@ == old(self).streams@
                }
            }),
            old(self).observed(*final(self), stream_id@, d_bov),
    {
        let ghost before = self.streams@;
        let mut i: usize = 0;
        assert(before.skip(0) =~= before);
        while i < self.streams.len()
            invariant
                *self == *old(self),
                self.streams@ == before,
                0 <= i <= before.len(),
                place_of(before, stream_id@) == i + place_of(before.skip(i as int), stream_id@),
            decreases before.len() - i,
        {
            if same(self.streams[i].id.as_str(), stream_id) {
                // Active voice level should be lower than threshold
                if d_bov <= self.threshold {
                    let sum: i32 = self.streams[i].sum.wrapping_add(d_bov as i32);
                    let total: i32 = self.streams[i].total.wrapping_add(1);
                    let stream = &mut self.streams[i];
                    stream.sum = sum;
                    stream.total = total;
                }
                return ;
            }
            assert(before.skip(i as int).skip(1) =~= before.skip(i + 1));
            i = i + 1;
        }
    }

    /// Moves the stream at `i` to its place among those in front of it, which are sorted.
    fn rank(&mut self, i: usize)
        requires
            i < old(self).streams@.len(),
        ensures
            *final(self) == (AudioObserver { streams: final(self).streams, ..*old(self) }),
            final(self).streams@ == put_in(
                old(self).streams@.take(i as int),
                old(self).streams@[i as int],
            ) + old(self).streams@.skip(i + 1),
    {
        let ghost before = self.streams@;
        let ghost front = before.take(i as int);
        let ghost stream = before[i as int];
        let mut at: usize = i;
        assert(front.take(at as int) =~= front);
        assert(put_in(front, stream) =~= put_in(front.take(at as int), stream) + front.skip(
            at as int,
        ));
        while at > 0 && (self.streams[i].total > self.streams[at - 1].total
            || self.streams[i].total == self.streams[at - 1].total && self.streams[i].sum
            > self.streams[at - 1].sum)
            invariant
                *self == *old(self),
                self.streams@ == before,
                0 <= at <= i < before.len(),
                front == before.take(i as int),
                stream == before[i as int],
                put_in(front, stream) == put_in(front.take(at as int), stream) + front.skip(
                    at as int,
                ),
            decreases at,
        {
            proof {
                let shorter = front.take(at as int);
                assert(shorter.drop_last() =~= front.take(at - 1));
                assert(shorter.last() == before[at - 1]);
                assert(put_in(front, stream) =~= put_in(front.take(at - 1), stream) + front.skip(
                    at - 1,
                ));
            }
            at = at - 1;
        }
        proof {
            assert(put_in(front.take(at as int), stream) == front.take(at as int).push(stream));
        }
        let moved = self.streams.remove(i);
        self.streams.insert(at, moved);
        assert(self.streams@ =~= put_in(front, stream) + before.skip(i + 1));
    }

    /// Whether `after` is this observer once the activity was calculated, and `found` are the
    /// streams to tell about.
    pub open spec fn calculated(&self, after: AudioObserver, found: Option<Seq<Seq<char>>>) -> bool {
        let ids = active_ids(ranked(self.streams@), self.expected);
        &&& after == AudioObserver { streams: after.streams, previous: after.previous, ..*self }
        &&& after.streams@ == ranked(self.streams@).map_values(
            |stream: AudioStream| AudioStream { sum: 0, total: 0, ..stream },
        )
        &&& views(after.previous@) == ids
        &&& found is None <==> ids.len() == 0 || ids == views(self.previous@)
        &&& found matches Some(list) ==> list == ids
    }

    /// Sorts current streams vector by total, and secondly by sum.
    ///
    /// Filters streams which total is equal or higher than `expected`, the sum and total from the streams are reset.
    /// # Returns
    /// Vector of stream ids from selected streams, or None if the vector is empty, or the same as
    /// the last time.
    pub fn calc(&mut self) -> (res: Option<Vec<String>>)
        ensures
            old(self).calculated(
                *final(self),
                match res {
                    Some(found) => Some(views(found@)),
                    None => None,
                },
            ),
    {
        let ghost before = self.streams@;
        let n: usize = self.streams.len();
        let mut i: usize = 0;
        assert(before.take(0) =~= Seq::<AudioStream>::empty());
        assert(self.streams@ =~= ranked(before.take(0)) + before.skip(0));
        while i < n
            invariant
                *self == (AudioObserver { streams: self.streams, ..*old(self) }),
                i <= n == before.len() == self.streams@.len(),
                ranked(before.take(i as int)).len() == i,
                self.streams@ == ranked(before.take(i as int)) + before.skip(i as int),
            decreases n - i,
        {
            let ghost done = ranked(before.take(i as int));
            proof {
                assert(before.take(i + 1).drop_last() =~= before.take(i as int));
                assert(before.take(i + 1).last() == before[i as int]);
                assert(self.streams@.take(i as int) =~= done);
                assert(self.streams@.skip(i + 1) =~= before.skip(i + 1));
                lemma_put_in_len(done, before[i as int]);
            }
            self.rank(i);
            i = i + 1;
        }
        assert(before.take(n as int) =~= before);
        assert(self.streams@ =~= ranked(before));
        let stream_ids = self.take_active();
        let changed = !same_all(&self.previous, &stream_ids);
        self.previous = clone_all(&stream_ids);
        if changed && stream_ids.len() > 0 {
            Some(stream_ids)
        } else {
            None
        }
    }

    /// Takes down the ids of the streams that were heard often enough, and resets all streams.
    fn take_active(&mut self) -> (stream_ids: Vec<String>)
        ensures
            *final(self) == (AudioObserver { streams: final(self).streams, ..*old(self) }),
            final(self).streams@ == old(self).streams@.map_values(
                |stream: AudioStream| AudioStream { sum: 0, total: 0, ..stream },
            ),
            views(stream_ids@) == active_ids(old(self).streams@, old(self).expected),
    {
        let ghost before = self.streams@;
        let ghost f = |stream: AudioStream| AudioStream { sum: 0, total: 0, ..stream };
        let mut stream_ids: Vec<String> = Vec::new();
        let mut i: usize = 0;
        assert(before.take(0) =~= Seq::<AudioStream>::empty());
        assert(views(stream_ids@) =~= active_ids(before.take(0), self.expected));
        while i < self.streams.len()
            invariant
                f == (|stream: AudioStream| AudioStream { sum: 0, total: 0, ..stream }),
                *self == (AudioObserver { streams: self.streams, ..*old(self) }),
                i <= before.len() == self.streams@.len(),
                forall|k: int| 0 <= k < i ==> self.streams@[k] == f(before[k]),
                forall|k: int| i <= k < before.len() ==> self.streams@[k] == before[k],
                views(stream_ids@) == active_ids(before.take(i as int), self.expected),
            decreases before.len() - i,
        {
            proof {
                assert(before.take(i + 1).drop_last() =~= before.take(i as int));
                assert(before.take(i + 1).last() == before[i as int]);
            }
            if self.streams[i].total >= self.expected {
                let ghost ids = stream_ids@;
                stream_ids.push(self.streams[i].id.clone());
                assert(views(stream_ids@) =~= views(ids).push(before[i as int].id@));
            }
            let stream = &mut self.streams[i];
            stream.total = 0;
            stream.sum = 0;
            i = i + 1;
        }
        assert(before.take(i as int) =~= before);
        assert(self.streams@ =~= before.map_values(f));
        stream_ids
    }

    /// Returns true if there are no streams.
    pub fn is_empty(&self) -> (res: bool)
        ensures
            res == (self.streams@.len() == 0),
    {
        self.streams.len() == 0
    }
}

/// Putting a stream in adds one.
proof fn lemma_put_in_len(streams: Seq<AudioStream>, stream: AudioStream)
    ensures
        put_in(streams, stream).len() == streams.len() + 1,
    decreases streams.len(),
{
    if streams.len() > 0 && in_front(stream, streams.last()) {
        lemma_put_in_len(streams.drop_last(), stream);
    }
}

/// Sorting keeps the streams, and puts no stream behind one that it goes in front of.
pub proof fn law_ranked_is_sorted(streams: Seq<AudioStream>)
    ensures
        ranked(streams).to_multiset() == streams.to_multiset(),
        forall|i: int, j: int|
            0 <= i < j < ranked(streams).len() ==> !in_front(ranked(streams)[j], ranked(streams)[i]),
    decreases streams.len(),
{
    broadcast use vstd::seq_lib::group_to_multiset_ensures;

    if streams.len() > 0 {
        let shorter = streams.drop_last();
        law_ranked_is_sorted(shorter);
        assert(streams =~= shorter.push(streams.last()));
        lemma_put_in(ranked(shorter), streams.last());
    }
}

/// Putting a stream in keeps the order.
proof fn lemma_put_in(streams: Seq<AudioStream>, stream: AudioStream)
    requires
        forall|i: int, j: int| 0 <= i < j < streams.len() ==> !in_front(streams[j], streams[i]),
    ensures
        put_in(streams, stream).to_multiset() == streams.to_multiset().insert(stream),
        forall|i: int, j: int|
            0 <= i < j < put_in(streams, stream).len() ==> !in_front(
                put_in(streams, stream)[j],
                put_in(streams, stream)[i],
            ),
        forall|i: int|
            0 <= i < put_in(streams, stream).len() ==> put_in(streams, stream)[i] == stream
                || streams.contains(#[trigger] put_in(streams, stream)[i]),
    decreases streams.len(),
{
    broadcast use vstd::seq_lib::group_to_multiset_ensures;

    let result = put_in(streams, stream);
    if streams.len() == 0 || !in_front(stream, streams.last()) {
        assert forall|i: int, j: int| 0 <= i < j < result.len() implies !in_front(
            result[j],
            result[i],
        ) by {
            if j == streams.len() && i < streams.len() - 1 {
                assert(!in_front(streams.last(), streams[i]));
            }
        }
        assert forall|i: int| 0 <= i < result.len() implies result[i] == stream || streams.contains(
            #[trigger] result[i],
        ) by {
            if i < streams.len() {
                assert(streams[i] == result[i]);
            }
        }
    } else {
        let shorter = streams.drop_last();
        let inner = put_in(shorter, stream);
        lemma_put_in(shorter, stream);
        assert(streams =~= shorter.push(streams.last()));
        assert(result =~= inner.push(streams.last()));
        assert forall|i: int| 0 <= i < inner.len() implies !in_front(
            streams.last(),
            #[trigger] inner[i],
        ) by {
            if inner[i] != stream {
                let k = choose|k: int| 0 <= k < shorter.len() && shorter[k] == inner[i];
                assert(!in_front(streams[streams.len() - 1], streams[k]));
            }
        }
        assert forall|i: int| 0 <= i < result.len() implies result[i] == stream || streams.contains(
            #[trigger] result[i],
        ) by {
            if i < inner.len() {
                assert(result[i] == inner[i]);
                if inner[i] != stream {
                    let k = choose|k: int| 0 <= k < shorter.len() && shorter[k] == inner[i];
                    assert(streams[k] == inner[i]);
                }
            } else {
                assert(streams[streams.len() - 1] == result[i]);
            }
        }
        assert(result.to_multiset() =~= streams.to_multiset().insert(stream));
    }
}

/// Just those streams are reported that were heard as often as expected.
pub proof fn law_active_streams_are_reported(streams: Seq<AudioStream>, expected: i32, id: Seq<char>)
    ensures
        active_ids(ranked(streams), expected).contains(id) <==> exists|i: int|
            0 <= i < streams.len() && (#[trigger] streams[i]).id@ == id && streams[i].total
                >= expected,
{
    law_ranked_is_sorted(streams);
    let order = ranked(streams);
    lemma_active_ids(order, expected, id);
    if exists|i: int|
        0 <= i < order.len() && (#[trigger] order[i]).id@ == id && order[i].total >= expected {
        let i = choose|i: int|
            0 <= i < order.len() && (#[trigger] order[i]).id@ == id && order[i].total >= expected;
        lemma_same_streams(order, streams, i);
    }
    if exists|i: int|
        0 <= i < streams.len() && (#[trigger] streams[i]).id@ == id && streams[i].total
            >= expected {
        let i = choose|i: int|
            0 <= i < streams.len() && (#[trigger] streams[i]).id@ == id && streams[i].total
                >= expected;
        lemma_same_streams(streams, order, i);
    }
}

/// A stream in one order of the streams is in the other one.
proof fn lemma_same_streams(one: Seq<AudioStream>, other: Seq<AudioStream>, i: int)
    requires
        one.to_multiset() == other.to_multiset(),
        0 <= i < one.len(),
    ensures
        exists|k: int| 0 <= k < other.len() && #[trigger] other[k] == one[i],
{
    broadcast use vstd::seq_lib::group_to_multiset_ensures;

    assert(one.contains(one[i]));
    assert(one.to_multiset().count(one[i]) > 0);
    assert(other.contains(one[i]));
}

/// The ids of the streams that were heard often enough, without their order.
proof fn lemma_active_ids(streams: Seq<AudioStream>, expected: i32, id: Seq<char>)
    ensures
        active_ids(streams, expected).contains(id) <==> exists|i: int|
            0 <= i < streams.len() && (#[trigger] streams[i]).id@ == id && streams[i].total
                >= expected,
    decreases streams.len(),
{
    if streams.len() > 0 {
        let shorter = streams.drop_last();
        let others = active_ids(shorter, expected);
        lemma_active_ids(shorter, expected, id);
        assert forall|i: int| 0 <= i < shorter.len() implies #[trigger] shorter[i]
            == streams[i] by {}
        let last = streams.last();
        if last.total >= expected {
            assert(others.push(last.id@).contains(id) <==> others.contains(id) || last.id@ == id)
                by {
                if others.contains(id) {
                    let k = choose|k: int| 0 <= k < others.len() && others[k] == id;
                    assert(others.push(last.id@)[k] == id);
                }
                assert(others.push(last.id@).last() == last.id@);
            }
        }
        if exists|i: int|
            0 <= i < streams.len() && (#[trigger] streams[i]).id@ == id && streams[i].total
                >= expected {
            let i = choose|i: int|
                0 <= i < streams.len() && (#[trigger] streams[i]).id@ == id && streams[i].total
                    >= expected;
            if i < shorter.len() {
                assert(shorter[i].id@ == id);
            }
        }
        if exists|i: int|
            0 <= i < shorter.len() && (#[trigger] shorter[i]).id@ == id && shorter[i].total
                >= expected {
            let i = choose|i: int|
                0 <= i < shorter.len() && (#[trigger] shorter[i]).id@ == id && shorter[i].total
                    >= expected;
            assert(streams[i].id@ == id);
        }
        assert(streams[streams.len() - 1] == last);
    }
}


/// The streams are reported in the order in which they were heard: a stream that was heard more often
/// stands in front of one that was heard less often, and among those that were heard as often the one
/// with the higher sum.
pub proof fn law_streams_that_are_heard_more_come_first(streams: Seq<AudioStream>, i: int, j: int)
    requires
        0 <= i < j < ranked(streams).len(),
    ensures
        ranked(streams)[i].total >= ranked(streams)[j].total,
        ranked(streams)[i].total == ranked(streams)[j].total ==> ranked(streams)[i].sum
            >= ranked(streams)[j].sum,
{
    law_ranked_is_sorted(streams);
    assert(!in_front(ranked(streams)[j], ranked(streams)[i]));
}

/// A new speaker is reported: a stream that was heard as often as expected, and that was not reported
/// the last time, is among those that are told of, however many there were before.
pub proof fn law_new_speaker_is_reported(
    before: AudioObserver,
    after: AudioObserver,
    found: Option<Seq<Seq<char>>>,
    i: int,
)
    requires
        before.calculated(after, found),
        0 <= i < before.streams@.len(),
        before.streams@[i].total >= before.expected,
        !views(before.previous@).contains(before.streams@[i].id@),
    ensures
        found matches Some(ids) && ids.contains(before.streams@[i].id@),
{
    law_active_streams_are_reported(before.streams@, before.expected, before.streams@[i].id@);
}

/// A speaker who fell silent is taken back: where someone is still heard, and a stream that was
/// reported the last time is not heard as often as expected any longer, the others are reported.
pub proof fn law_end_of_a_speech_is_reported(
    before: AudioObserver,
    after: AudioObserver,
    found: Option<Seq<Seq<char>>>,
    id: Seq<char>,
    heard: int,
)
    requires
        before.calculated(after, found),
        views(before.previous@).contains(id),
        forall|i: int|
            0 <= i < before.streams@.len() && (#[trigger] before.streams@[i]).id@ == id
                ==> before.streams@[i].total < before.expected,
        0 <= heard < before.streams@.len(),
        before.streams@[heard].total >= before.expected,
    ensures
        found matches Some(ids) && !ids.contains(id) && ids.contains(before.streams@[heard].id@),
{
    law_active_streams_are_reported(before.streams@, before.expected, id);
    law_active_streams_are_reported(before.streams@, before.expected, before.streams@[heard].id@);
}

/// What is told is news: it names someone, it differs from what was told or noted the last time, and
/// everyone in it was heard as often as expected. Nothing is told just where nobody was heard, or
/// where the same streams were heard in the same order.
pub proof fn law_only_news_are_told(
    before: AudioObserver,
    after: AudioObserver,
    found: Option<Seq<Seq<char>>>,
)
    requires
        before.calculated(after, found),
    ensures
        found matches Some(ids) ==> ids.len() > 0 && ids != views(before.previous@) && ids == views(
            after.previous@,
        ),
        found is None ==> views(after.previous@).len() == 0 || views(after.previous@) == views(
            before.previous@,
        ),
        forall|id: Seq<char>| #[trigger]
            views(after.previous@).contains(id) <==> exists|i: int|
                0 <= i < before.streams@.len() && (#[trigger] before.streams@[i]).id@ == id
                    && before.streams@[i].total >= before.expected,
{
    assert forall|id: Seq<char>| #[trigger]
        views(after.previous@).contains(id) <==> exists|i: int|
            0 <= i < before.streams@.len() && (#[trigger] before.streams@[i]).id@ == id
                && before.streams@[i].total >= before.expected by {
        law_active_streams_are_reported(before.streams@, before.expected, id);
    }
}

/// Each interval starts anew: the same streams are observed, none of which was heard yet.
pub proof fn law_interval_starts_anew(
    before: AudioObserver,
    after: AudioObserver,
    found: Option<Seq<Seq<char>>>,
    id: Seq<char>,
)
    requires
        before.calculated(after, found),
    ensures
        after.streams@.len() == before.streams@.len(),
        forall|i: int|
            0 <= i < after.streams@.len() ==> (#[trigger] after.streams@[i]).total == 0
                && after.streams@[i].sum == 0,
        (exists|i: int| 0 <= i < after.streams@.len() && (#[trigger] after.streams@[i]).id@ == id)
            <==> (exists|i: int|
            0 <= i < before.streams@.len() && (#[trigger] before.streams@[i]).id@ == id),
        after.expected == before.expected,
        after.threshold == before.threshold,
{
    broadcast use vstd::seq_lib::group_to_multiset_ensures;

    law_ranked_is_sorted(before.streams@);
    let order = ranked(before.streams@);
    assert(order.len() == order.to_multiset().len());
    assert(before.streams@.len() == before.streams@.to_multiset().len());
    if exists|i: int| 0 <= i < after.streams@.len() && (#[trigger] after.streams@[i]).id@ == id {
        let i = choose|i: int|
            0 <= i < after.streams@.len() && (#[trigger] after.streams@[i]).id@ == id;
        assert(order[i].id@ == id);
        lemma_same_streams(order, before.streams@, i);
    }
    if exists|i: int| 0 <= i < before.streams@.len() && (#[trigger] before.streams@[i]).id@ == id {
        let i = choose|i: int|
            0 <= i < before.streams@.len() && (#[trigger] before.streams@[i]).id@ == id;
        lemma_same_streams(before.streams@, order, i);
        let k = choose|k: int| 0 <= k < order.len() && #[trigger] order[k] == before.streams@[i];
        assert(after.streams@[k].id@ == id);
    }
}

/// A level at or below the threshold counts once for the first stream with the id, and one above it
/// does not count. Other streams are left alone.
pub proof fn law_voice_counts_for_its_stream(
    before: AudioObserver,
    after: AudioObserver,
    id: Seq<char>,
    d_bov: u8,
    at: int,
)
    requires
        before.observed(after, id, d_bov),
        0 <= at < before.streams@.len(),
        before.streams@[at].id@ == id,
        forall|i: int| 0 <= i < at ==> (#[trigger] before.streams@[i]).id@ != id,
    ensures
        after.streams@.len() == before.streams@.len(),
        forall|i: int|
            0 <= i < before.streams@.len() && i != at ==> #[trigger] after.streams@[i]
                == before.streams@[i],
        d_bov > before.threshold ==> after.streams@[at] == before.streams@[at],
        d_bov <= before.threshold ==> {
            let (was, now) = (before.streams@[at], after.streams@[at]);
            &&& now.id == was.id
            &&& was.total < i32::MAX ==> now.total == was.total + 1
            &&& was.sum + d_bov <= i32::MAX ==> now.sum == was.sum + d_bov
        },
        after.previous == before.previous,
        after.expected == before.expected,
{
    lemma_place_of(before.streams@, id, at);
}

/// The place of the first stream with the id.
proof fn lemma_place_of(streams: Seq<AudioStream>, id: Seq<char>, at: int)
    requires
        0 <= at < streams.len(),
        streams[at].id@ == id,
        forall|i: int| 0 <= i < at ==> (#[trigger] streams[i]).id@ != id,
    ensures
        place_of(streams, id) == at,
    decreases at,
{
    if at > 0 {
        assert(streams[0].id@ != id);
        let rest = streams.skip(1);
        assert forall|i: int| 0 <= i < at - 1 implies (#[trigger] rest[i]).id@ != id by {
            assert(rest[i] == streams[i + 1]);
        }
        lemma_place_of(rest, id, at - 1);
    }
}

/// A stream is expected to be heard for the share of an interval that the filter gives in percent,
/// where each time that it is heard stands for 20 milliseconds.
pub proof fn law_expected_grows_with_the_filter(interval: i32, filter: i32)
    requires
        0 <= interval <= 20_000_000,
    ensures
        0 <= filter <= 100 ==> expected_power(interval, filter) * 2000 <= interval * filter < (
        expected_power(interval, filter) + 1) * 2000,
        filter < 0 ==> expected_power(interval, filter) == 0,
        filter > 100 ==> expected_power(interval, filter) == interval / 20,
{
    let share = limited(filter as int, 0, 100);
    assert(share == 0 ==> interval * share == 0) by (nonlinear_arith);
    assert(share == 100 ==> interval * share == interval * 100) by (nonlinear_arith);
    if 0 <= filter <= 100 {
        assert(0 <= interval * filter <= 2_000_000_000) by (nonlinear_arith)
            requires
                0 <= interval <= 20_000_000,
                0 <= filter <= 100,
        ;
        let power = interval * filter;
        assert(power % 0x1_0000_0000 == power);
    }
}

} // verus!
