use dashmap::DashMap;
use vstd::prelude::*;

use crate::packet::atomic_buffer::AtomicBuffer;
use crate::packet::rtcp::RTCPForwarder;

verus! {

/// The places of a map, by SSRC.
pub uninterp spec fn places(map: DashMap<u32, u64>) -> Map<u32, u64>;

/// Calls `DashMap::new`, which creates a map without entries.
#[verifier::external_body]
fn places_new() -> (created: DashMap<u32, u64>)
    ensures
        places(created).dom() == Set::<u32>::empty(),
{
    DashMap::new()
}

/// Calls `DashMap::insert`, which sets the value of the key and returns the one before.
#[verifier::external_body]
fn places_insert(map: &mut DashMap<u32, u64>, ssrc: u32, place: u64) -> (before: Option<u64>)
    ensures
        places(*final(map)) == places(*old(map)).insert(ssrc, place),
        before == if places(*old(map)).contains_key(ssrc) {
            Some(places(*old(map))[ssrc])
        } else {
            None
        },
{
    map.insert(ssrc, place)
}

/// Calls `DashMap::get`, which returns a reference to the value of the key, if there is one.
#[verifier::external_body]
fn places_get(map: &DashMap<u32, u64>, ssrc: u32) -> (place: Option<u64>)
    ensures
        place == if places(*map).contains_key(ssrc) {
            Some(places(*map)[ssrc])
        } else {
            None
        },
{
    map.get(&ssrc).map(|found| *found)
}

/// What belongs to the tracks with the given SSRCs.
#[verifier::reject_recursive_types(T)]
pub struct SsrcMap<T> {
    index: DashMap<u32, u64>,
    items: Vec<T>,
}

impl<T> View for SsrcMap<T> {
    type V = Map<u32, T>;

    closed spec fn view(&self) -> Map<u32, T> {
        Map::new(
            |ssrc: u32| places(self.index).contains_key(ssrc),
            |ssrc: u32| self.items@[places(self.index)[ssrc] as int],
        )
    }
}

impl<T> SsrcMap<T> {
    /// What every operation keeps.
    pub closed spec fn wf(&self) -> bool {
        &&& forall|ssrc: u32| #[trigger]
            places(self.index).contains_key(ssrc) ==> places(self.index)[ssrc] < self.items@.len()
        &&& forall|a: u32, b: u32|
            places(self.index).contains_key(a) && places(self.index).contains_key(b) && a != b
                ==> #[trigger] places(self.index)[a] != #[trigger] places(self.index)[b]
    }

    pub fn new() -> (map: Self)
        ensures
            map.wf(),
            map@ == Map::<u32, T>::empty(),
    {
        let map = SsrcMap { index: places_new(), items: Vec::new() };
        proof {
            assert(map@.dom() =~= Set::empty());
            assert(map@ =~= Map::<u32, T>::empty());
        }
        map
    }

    fn find(&self, ssrc: u32) -> (res: Option<usize>)
        requires
            self.wf(),
        ensures
            match res {
                None => !places(self.index).contains_key(ssrc),
                Some(at) => places(self.index).contains_key(ssrc) && at < self.items@.len() && at
                    == places(self.index)[ssrc],
            },
    {
        match places_get(&self.index, ssrc) {
            None => None,
            Some(at) => {
                assert(places(self.index).contains_key(ssrc));
                let len: usize = self.items.len();
                assert(at < len);
                Some(at as usize)
            },
        }
    }

    /// Whether there is something for the track.
    pub fn contains(&self, ssrc: u32) -> (res: bool)
        requires
            self.wf(),
        ensures
            res == self@.contains_key(ssrc),
    {
        self.find(ssrc).is_some()
    }

    /// What belongs to the track.
    pub fn get(&self, ssrc: u32) -> (res: Option<&T>)
        requires
            self.wf(),
        ensures
            match res {
                None => !self@.contains_key(ssrc),
                Some(item) => self@.contains_key(ssrc) && *item == self@[ssrc],
            },
    {
        match self.find(ssrc) {
            None => None,
            Some(at) => Some(&self.items[at]),
        }
    }

    /// What belongs to the track, to change it. Where there is nothing yet, it is `item`.
    pub fn get_or_insert(&mut self, ssrc: u32, item: T) -> (res: &mut T)
        requires
            old(self).wf(),
        ensures
            final(self).wf(),
            *res == if old(self)@.contains_key(ssrc) {
                old(self)@[ssrc]
            } else {
                item
            },
            final(self)@ == old(self)@.insert(ssrc, *final(res)),
    {
        let ghost was = *self;
        let at: usize = match self.find(ssrc) {
            Some(at) => at,
            None => {
                let at: usize = self.items.len();
                let _none = places_insert(&mut self.index, ssrc, at as u64);
                self.items.push(item);
                at
            },
        };
        proof {
            assert(self.wf());
            self.lemma_updated(at as int, ssrc);
            assert forall|value: T| #[trigger] self@.insert(ssrc, value) == was@.insert(ssrc, value) by {
                assert(self@.insert(ssrc, value) =~= was@.insert(ssrc, value));
            }
        }
        &mut self.items[at]
    }

    /// Changing an item changes that one alone.
    proof fn lemma_updated(&self, at: int, ssrc: u32)
        requires
            self.wf(),
            0 <= at < self.items@.len(),
            places(self.index).contains_key(ssrc),
            places(self.index)[ssrc] == at,
        ensures
            forall|after: SsrcMap<T>, item: T|
                after.index == self.index && after.items@ == #[trigger] self.items@.update(at, item)
                    ==> (#[trigger] after.wf()) && after@ == self@.insert(ssrc, item),
    {
        assert forall|after: SsrcMap<T>, item: T|
            after.index == self.index && after.items@ == #[trigger] self.items@.update(
                at,
                item,
            ) implies (#[trigger] after.wf()) && after@ == self@.insert(ssrc, item) by {
            assert forall|other: u32|
                after@.contains_key(other) <==> self@.insert(ssrc, item).contains_key(other) by {}
            assert(after@ =~= self@.insert(ssrc, item));
        }
    }
}

/// The buffers of the tracks, by SSRC.
pub struct Factory {
    pub rtp_buffers: SsrcMap<AtomicBuffer>,
    pub rtcp_readers: SsrcMap<RTCPForwarder>,
}

/// Creates the buffers of tracks as they are needed.
pub struct AtomicFactory {
    pub factory: Factory,
}

impl AtomicFactory {
    /// What every operation keeps.
    pub open spec fn wf(&self) -> bool {
        self.factory.rtp_buffers.wf() && self.factory.rtcp_readers.wf()
    }

    pub fn new() -> (factory: Self)
        ensures
            factory.wf(),
            factory.factory.rtp_buffers@ == Map::<u32, AtomicBuffer>::empty(),
            factory.factory.rtcp_readers@ == Map::<u32, RTCPForwarder>::empty(),
    {
        Self { factory: Factory { rtp_buffers: SsrcMap::new(), rtcp_readers: SsrcMap::new() } }
    }

    /// The RTCP forwarder of the track, to change it. Where there is none yet, it is a new one.
    pub fn get_or_new_rtcp_buffer(&mut self, ssrc: u32) -> (res: &mut RTCPForwarder)
        requires
            old(self).wf(),
        ensures
            final(self).wf(),
            *res == if old(self).factory.rtcp_readers@.contains_key(ssrc) {
                old(self).factory.rtcp_readers@[ssrc]
            } else {
                RTCPForwarder { ssrc, on_packets: false }
            },
            final(self).factory.rtcp_readers@ == old(self).factory.rtcp_readers@.insert(
                ssrc,
                *final(res),
            ),
            final(self).factory.rtp_buffers == old(self).factory.rtp_buffers,
    {
        self.factory.rtcp_readers.get_or_insert(ssrc, RTCPForwarder::new(ssrc))
    }

    /// The buffer of the track, to change it. Where there is none yet, it is a new one.
    pub fn get_or_new_buffer(&mut self, ssrc: u32) -> (res: &mut AtomicBuffer)
        requires
            old(self).wf(),
        ensures
            final(self).wf(),
            if old(self).factory.rtp_buffers@.contains_key(ssrc) {
                *res == old(self).factory.rtp_buffers@[ssrc]
            } else {
                res.is_new(ssrc)
            },
            final(self).factory.rtp_buffers@ == old(self).factory.rtp_buffers@.insert(
                ssrc,
                *final(res),
            ),
            final(self).factory.rtcp_readers == old(self).factory.rtcp_readers,
    {
        self.factory.rtp_buffers.get_or_insert(ssrc, AtomicBuffer::new(ssrc))
    }

    pub fn get_rtp_buffer(&self, ssrc: u32) -> (res: Option<&AtomicBuffer>)
        requires
            self.wf(),
        ensures
            match res {
                None => !self.factory.rtp_buffers@.contains_key(ssrc),
                Some(buffer) => self.factory.rtp_buffers@.contains_key(ssrc) && *buffer
                    == self.factory.rtp_buffers@[ssrc],
            },
    {
        self.factory.rtp_buffers.get(ssrc)
    }

    pub fn get_rtcp_buffer(&self, ssrc: u32) -> (res: Option<&RTCPForwarder>)
        requires
            self.wf(),
        ensures
            match res {
                None => !self.factory.rtcp_readers@.contains_key(ssrc),
                Some(forwarder) => self.factory.rtcp_readers@.contains_key(ssrc) && *forwarder
                    == self.factory.rtcp_readers@[ssrc],
            },
    {
        self.factory.rtcp_readers.get(ssrc)
    }
}

} // verus!
