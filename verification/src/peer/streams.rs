use vstd::prelude::*;

use crate::registry::Registry;
use crate::text::same;

verus! {

/// A down track, and the number that it is found by.
pub struct TrackRef {
    pub id: String,
    pub number: u64,
}

impl View for TrackRef {
    type V = (Seq<char>, u64);

    open spec fn view(&self) -> (Seq<char>, u64) {
        (self.id@, self.number)
    }
}

/// The tracks in a list.
pub open spec fn refs_of(list: Seq<TrackRef>) -> Seq<(Seq<char>, u64)> {
    list.map_values(|track: TrackRef| track@)
}

/// The number of the first track with the given id.
pub open spec fn number_of(tracks: Seq<(Seq<char>, u64)>, id: Seq<char>) -> Option<u64>
    decreases tracks.len(),
{
    if tracks.len() == 0 {
        None
    } else if tracks[0].0 == id {
        Some(tracks[0].1)
    } else {
        number_of(tracks.skip(1), id)
    }
}

/// The tracks that are sent to a peer, by stream.
pub struct StreamTracks {
    pub streams: Registry<Vec<TrackRef>>,
}

impl View for StreamTracks {
    type V = Map<Seq<char>, Seq<(Seq<char>, u64)>>;

    open spec fn view(&self) -> Map<Seq<char>, Seq<(Seq<char>, u64)>> {
        self.streams@.map_values(|list: Vec<TrackRef>| refs_of(list@))
    }
}

impl StreamTracks {
    /// What every operation keeps.
    pub open spec fn wf(&self) -> bool {
        self.streams.wf()
    }

    /// The tracks of a stream, or none.
    pub open spec fn of_stream(&self, stream_id: Seq<char>) -> Seq<(Seq<char>, u64)> {
        if self@.contains_key(stream_id) {
            self@[stream_id]
        } else {
            seq![]
        }
    }

    pub fn new() -> (tracks: Self)
        ensures
            tracks.wf(),
            tracks@ == Map::<Seq<char>, Seq<(Seq<char>, u64)>>::empty(),
    {
        let tracks = Self { streams: Registry::new() };
        assert(tracks@ =~= Map::<Seq<char>, Seq<(Seq<char>, u64)>>::empty());
        tracks
    }

    /// The tracks of a stream.
    pub fn get_tracks(&self, stream_id: &str) -> (res: Option<&Vec<TrackRef>>)
        requires
            self.wf(),
        ensures
            match res {
                None => !self@.contains_key(stream_id@),
                Some(list) => self@.contains_key(stream_id@) && refs_of(list@) == self@[stream_id@],
            },
    {
        self.streams.get(stream_id)
    }

    /// The track of a stream with the given id.
    pub fn find(&self, stream_id: &str, track_id: &str) -> (res: Option<u64>)
        requires
            self.wf(),
        ensures
            res == number_of(self.of_stream(stream_id@), track_id@),
    {
        match self.get_tracks(stream_id) {
            None => None,
            Some(list) => find_number(list, track_id),
        }
    }

    /// Adds a track to a stream.
    pub fn push(&mut self, stream_id: String, track: TrackRef)
        requires
            old(self).wf(),
        ensures
            final(self).wf(),
            final(self)@ == old(self)@.insert(
                stream_id@,
                old(self).of_stream(stream_id@).push(track@),
            ),
            pushed(*old(self), *final(self), stream_id@, track@),
    {
        let ghost before = self@;
        let mut list: Vec<TrackRef> = match self.streams.remove(stream_id.as_str()) {
            Some(list) => list,
            None => Vec::new(),
        };
        proof {
            assert(refs_of(list@) =~= old(self).of_stream(stream_id@));
            assert(self@ =~= before.remove(stream_id@));
        }
        let ghost was = list@;
        list.push(track);
        let ghost now = list@;
        assert(refs_of(now) =~= refs_of(was).push(track@));
        let _none = self.streams.insert(stream_id, list);
        assert(self@ =~= before.insert(stream_id@, refs_of(now)));
    }

    /// Adds a track to a stream that is known. A stream that is not is taken note of, without the
    /// track.
    pub fn push_known(&mut self, stream_id: String, track: TrackRef)
        requires
            old(self).wf(),
        ensures
            final(self).wf(),
            final(self)@ == old(self)@.insert(
                stream_id@,
                if old(self)@.contains_key(stream_id@) {
                    old(self)@[stream_id@].push(track@)
                } else {
                    seq![]
                },
            ),
    {
        if self.streams.contains(stream_id.as_str()) {
            self.push(stream_id, track);
        } else {
            let none: Vec<TrackRef> = Vec::new();
            let ghost before = self@;
            let _none = self.streams.insert(stream_id, none);
            assert(refs_of(none@) =~= seq![]);
            assert(self@ =~= before.insert(stream_id@, seq![]));
        }
    }

    /// Takes the tracks with the given id out of a stream.
    pub fn remove_down_track(&mut self, stream_id: &str, down_track_id: &str)
        requires
            old(self).wf(),
        ensures
            final(self).wf(),
            final(self)@ == if old(self)@.contains_key(stream_id@) {
                old(self)@.insert(
                    stream_id@,
                    old(self)@[stream_id@].filter(
                        |track: (Seq<char>, u64)| track.0 != down_track_id@,
                    ),
                )
            } else {
                old(self)@
            },
            taken_out(*old(self), *final(self), stream_id@, down_track_id@),
    {
        let ghost before = self@;
        let list = match self.streams.remove(stream_id) {
            None => {
                assert(self@ =~= before);
                return ;
            },
            Some(list) => list,
        };
        assert(self@ =~= before.remove(stream_id@));
        assert(refs_of(list@) == before[stream_id@]);
        let kept = others(list, down_track_id);
        let ghost left = kept@;
        let _none = self.streams.insert(stream_id.to_owned(), kept);
        assert(self@ =~= before.insert(stream_id@, refs_of(left)));
        assert(named_otherwise(down_track_id@) =~= (|track: (Seq<char>, u64)| track.0
            != down_track_id@));
    }
}

fn find_number(list: &Vec<TrackRef>, id: &str) -> (res: Option<u64>)
    ensures
        res == number_of(refs_of(list@), id@),
{
    let ghost all = refs_of(list@);
    let mut i: usize = 0;
    assert(all.skip(0) =~= all);
    while i < list.len()
        invariant
            all == refs_of(list@),
            i <= list@.len(),
            number_of(all, id@) == number_of(all.skip(i as int), id@),
        decreases list@.len() - i,
    {
        assert(all.skip(i as int)[0] == list@[i as int]@);
        if same(list[i].id.as_str(), id) {
            return Some(list[i].number);
        }
        assert(all.skip(i as int).skip(1) =~= all.skip(i + 1));
        i = i + 1;
    }
    None
}

/// The tracks but for those with the given id.
fn others(list: Vec<TrackRef>, id: &str) -> (kept: Vec<TrackRef>)
    ensures
        refs_of(kept@) == refs_of(list@).filter(|track: (Seq<char>, u64)| track.0 != id@),
{
    let ghost all = refs_of(list@);
    let ghost keep = |track: (Seq<char>, u64)| track.0 != id@;
    let mut kept: Vec<TrackRef> = Vec::new();
    let mut i: usize = 0;
    proof {
        reveal(Seq::filter);
        assert(refs_of(kept@) =~= all.take(0).filter(keep));
    }
    while i < list.len()
        invariant
            all == refs_of(list@),
            keep == (|track: (Seq<char>, u64)| track.0 != id@),
            i <= list@.len(),
            refs_of(kept@) == all.take(i as int).filter(keep),
        decreases list@.len() - i,
    {
        let ghost before = kept@;
        proof {
            assert(all[i as int] == list@[i as int]@);
            assert(all.take(i + 1) =~= all.take(i as int).push(all[i as int]));
            all.take(i as int).lemma_filter_push(all[i as int], keep);
        }
        if !same(list[i].id.as_str(), id) {
            kept.push(TrackRef { id: list[i].id.clone(), number: list[i].number });
            assert(refs_of(kept@) =~= refs_of(before).push(all[i as int]));
        }
        i = i + 1;
    }
    assert(all.take(i as int) =~= all);
    kept
}

/// A track that was added to a stream is found in it, behind those that were there.
pub proof fn law_added_track_is_known(tracks: Seq<(Seq<char>, u64)>, id: Seq<char>, number: u64)
    ensures
        number_of(tracks.push((id, number)), id) == match number_of(tracks, id) {
            Some(first) => Some(first),
            None => Some(number),
        },
    decreases tracks.len(),
{
    let more = tracks.push((id, number));
    if tracks.len() > 0 {
        assert(more.skip(1) =~= tracks.skip(1).push((id, number)));
        law_added_track_is_known(tracks.skip(1), id, number);
    } else {
        assert(more[0] == (id, number));
    }
}

/// Whether the track was added to its stream.
pub open spec fn pushed(
    before: StreamTracks,
    after: StreamTracks,
    stream_id: Seq<char>,
    track: (Seq<char>, u64),
) -> bool {
    after@ == before@.insert(stream_id, before.of_stream(stream_id).push(track))
}

/// Whether the tracks with the id were taken out of the stream.
pub open spec fn taken_out(
    before: StreamTracks,
    after: StreamTracks,
    stream_id: Seq<char>,
    id: Seq<char>,
) -> bool {
    after@ == if before@.contains_key(stream_id) {
        before@.insert(stream_id, before@[stream_id].filter(named_otherwise(id)))
    } else {
        before@
    }
}

/// Whether a track has another id than the given one.
pub open spec fn named_otherwise(id: Seq<char>) -> spec_fn((Seq<char>, u64)) -> bool {
    |track: (Seq<char>, u64)| track.0 != id
}

/// A track that is found is the first of those with the id; none is found just if there is none.
pub proof fn law_first_track_with_the_id_is_found(tracks: Seq<(Seq<char>, u64)>, id: Seq<char>)
    ensures
        number_of(tracks, id) is None <==> forall|i: int|
            0 <= i < tracks.len() ==> (#[trigger] tracks[i]).0 != id,
        forall|i: int|
            0 <= i < tracks.len() && (#[trigger] tracks[i]).0 == id && (forall|k: int|
                0 <= k < i ==> (#[trigger] tracks[k]).0 != id) ==> number_of(tracks, id) == Some(
                tracks[i].1,
            ),
    decreases tracks.len(),
{
    if tracks.len() > 0 && tracks[0].0 != id {
        let rest = tracks.skip(1);
        law_first_track_with_the_id_is_found(rest, id);
        assert forall|i: int|
            0 <= i < tracks.len() && (#[trigger] tracks[i]).0 == id && (forall|k: int|
                0 <= k < i ==> (#[trigger] tracks[k]).0 != id) implies number_of(tracks, id) == Some(
            tracks[i].1,
        ) by {
            assert(rest[i - 1] == tracks[i]);
            assert forall|k: int| 0 <= k < i - 1 implies (#[trigger] rest[k]).0 != id by {
                assert(tracks[k + 1].0 != id);
            }
        }
        if number_of(rest, id) is None {
            assert forall|i: int| 0 <= i < tracks.len() implies (#[trigger] tracks[i]).0 != id by {
                if i > 0 {
                    assert(rest[i - 1] == tracks[i]);
                }
            }
        } else {
            let i = choose|i: int| 0 <= i < rest.len() && !((#[trigger] rest[i]).0 != id);
            assert(tracks[i + 1].0 == id);
        }
    }
}

/// A track stands behind the others of its stream, and the other streams stay as they were.
pub proof fn law_track_stands_behind_the_others(
    before: StreamTracks,
    after: StreamTracks,
    stream_id: Seq<char>,
    track: (Seq<char>, u64),
    other: Seq<char>,
)
    requires
        pushed(before, after, stream_id, track),
        other != stream_id,
    ensures
        after.of_stream(stream_id).len() == before.of_stream(stream_id).len() + 1,
        after.of_stream(stream_id).last() == track,
        after.of_stream(stream_id).drop_last() =~= before.of_stream(stream_id),
        after.of_stream(other) == before.of_stream(other),
        after@.contains_key(other) <==> before@.contains_key(other),
{
}

/// What is taken out of a stream is not found in it any longer; every other track is, in that stream
/// as in the others.
pub proof fn law_only_what_is_taken_out_is_gone(
    before: StreamTracks,
    after: StreamTracks,
    stream_id: Seq<char>,
    id: Seq<char>,
    other: Seq<char>,
    track: (Seq<char>, u64),
)
    requires
        taken_out(before, after, stream_id, id),
        other != stream_id,
    ensures
        number_of(after.of_stream(stream_id), id) is None,
        track.0 != id ==> (after.of_stream(stream_id).contains(track) <==> before.of_stream(
            stream_id,
        ).contains(track)),
        after.of_stream(other) == before.of_stream(other),
        after@.contains_key(other) <==> before@.contains_key(other),
        after@.contains_key(stream_id) <==> before@.contains_key(stream_id),
{
    if before@.contains_key(stream_id) {
        let keep = named_otherwise(id);
        let was = before@[stream_id];
        assert(after.of_stream(stream_id) == was.filter(keep));
        lemma_filtered(was, keep, track);
        assert forall|i: int| 0 <= i < was.filter(keep).len() implies (#[trigger] was.filter(
            keep,
        )[i]).0 != id by {
            let found = was.filter(keep)[i];
            assert(was.filter(keep).contains(found));
            lemma_filtered(was, keep, found);
            assert(keep(found));
        }
        law_first_track_with_the_id_is_found(was.filter(keep), id);
    } else {
        law_first_track_with_the_id_is_found(seq![], id);
    }
}

/// What is kept of a sequence are its elements that are to be kept.
proof fn lemma_filtered(
    s: Seq<(Seq<char>, u64)>,
    keep: spec_fn((Seq<char>, u64)) -> bool,
    x: (Seq<char>, u64),
)
    ensures
        s.filter(keep).contains(x) <==> s.contains(x) && keep(x),
    decreases s.len(),
{
    reveal(Seq::filter);
    if s.len() > 0 {
        let rest = s.drop_last();
        let kept = rest.filter(keep);
        lemma_filtered(rest, keep, x);
        assert(s =~= rest.push(s.last()));
        if s.contains(x) {
            let i = choose|i: int| 0 <= i < s.len() && s[i] == x;
            if i < rest.len() {
                assert(rest[i] == x);
            }
        }
        if rest.contains(x) {
            let i = choose|i: int| 0 <= i < rest.len() && rest[i] == x;
            assert(s[i] == x);
        }
        assert(s[s.len() - 1] == s.last());
        if keep(s.last()) {
            assert(s.filter(keep) == kept.push(s.last()));
            if kept.contains(x) {
                let i = choose|i: int| 0 <= i < kept.len() && kept[i] == x;
                assert(kept.push(s.last())[i] == x);
            }
            assert(kept.push(s.last())[kept.len() as int] == s.last());
            if s.filter(keep).contains(x) && x != s.last() {
                let i = choose|i: int|
                    0 <= i < kept.push(s.last()).len() && kept.push(s.last())[i] == x;
                assert(kept[i] == x);
            }
        }
    }
}

} // verus!
