use vstd::prelude::*;
use vstd::utf8::{decode_utf8, valid_utf8};

use crate::peer::negotiation::RTCOfferOptions;
use crate::session::room::{other_than, Room};

verus! {

/// What becomes of a data channel that a client opened.
pub enum ChannelAdded {
    /// There is one with the label: the messages of the new one are forwarded.
    Listen,
    /// There was none with the label: it is registered with the subscriber of its owner, and each of
    /// the peers is given one with the label, which is to be agreed on.
    Create { peers: Vec<(String, u64)> },
}

/// A data channel of a subscriber, if it has one, and whether it is open.
#[derive(Debug, Eq, PartialEq, Clone, Copy, Structural)]
pub struct FoundChannel {
    pub channel: Option<u64>,
    pub open: bool,
}

/// What is sent to others of a message.
pub enum Fanout {
    Text(String),
    Binary,
}

/// Calls `core::str::from_utf8`, which checks that bytes are UTF-8.
#[verifier::external_body]
fn read_utf8(data: &[u8]) -> (text: Option<String>)
    ensures
        match text {
            Some(s) => valid_utf8(data@) && s@ == decode_utf8(data@),
            None => !valid_utf8(data@),
        },
{
    core::str::from_utf8(data).ok().map(|s| s.to_owned())
}

/// The channels that are open.
pub open spec fn open_channels(found: Seq<FoundChannel>) -> Seq<u64>
    decreases found.len(),
{
    if found.len() == 0 {
        seq![]
    } else {
        let before = open_channels(found.drop_last());
        match found.last().channel {
            Some(channel) if found.last().open => before.push(channel),
            _ => before,
        }
    }
}

/// What a data channel is agreed on with.
pub fn channel_offer_options() -> (options: RTCOfferOptions)
    ensures
        options == (RTCOfferOptions { ice_restart: true, voice_activity_detection: true }),
{
    RTCOfferOptions { ice_restart: true, voice_activity_detection: true }
}

/// What is sent to others of a message that came in on a data channel. Text that is not UTF-8 becomes
/// empty.
pub fn fanout_message(data: &[u8], is_string: bool) -> (fanout: Fanout)
    ensures
        if is_string {
            fanout matches Fanout::Text(text) && text@ == if valid_utf8(data@) {
                decode_utf8(data@)
            } else {
                seq![]
            }
        } else {
            fanout is Binary
        },
{
    if !is_string {
        return Fanout::Binary;
    }
    match read_utf8(data) {
        Some(text) => Fanout::Text(text),
        None => {
            proof {
                reveal_strlit("");
                assert(""@ =~= seq![]);
            }
            Fanout::Text("".to_owned())
        },
    }
}

/// The channels that a message is sent on: those that are open.
pub fn get_data_channels(found: &Vec<FoundChannel>) -> (channels: Vec<u64>)
    ensures
        channels@ == open_channels(found@),
{
    let mut channels: Vec<u64> = Vec::new();
    let mut i: usize = 0;
    assert(found@.take(0) =~= seq![]);
    assert(channels@ =~= open_channels(found@.take(0)));
    while i < found.len()
        invariant
            i <= found@.len(),
            channels@ == open_channels(found@.take(i as int)),
        decreases found@.len() - i,
    {
        assert(found@.take(i + 1).drop_last() =~= found@.take(i as int));
        if let Some(channel) = found[i].channel {
            if found[i].open {
                channels.push(channel);
            }
        }
        i = i + 1;
    }
    assert(found@.take(i as int) =~= found@);
    channels
}

impl Room {
    /// The labels of the data channels that every subscriber is given.
    pub fn get_data_channel_middlewares(&self) -> (labels: &Vec<String>)
        ensures
            *labels == self.data_channels,
    {
        &self.data_channels
    }

    /// Stores data channel provided by client
    pub fn add_data_channel(&mut self, owner: &str, label: String) -> (added: ChannelAdded)
        requires
            old(self).wf(),
            old(self).labels@.contains_key(label@) || old(self).peers@.contains_key(owner@),
        ensures
            final(self).wf(),
            if old(self).labels@.contains_key(label@) {
                added is Listen && *final(self) == *old(self)
            } else {
                &&& *final(self) == (Room { labels: final(self).labels, ..*old(self) })
                &&& final(self).labels@ == old(self).labels@.insert(label@, ())
                &&& added matches ChannelAdded::Create { peers } && peers@.map_values(
                    |peer: (String, u64)| peer.0@,
                ) == old(self).others(owner@) && forall|i: int|
                    0 <= i < peers@.len() ==> old(self).peers@.contains_key(
                        (#[trigger] peers@[i]).0@,
                    ) && old(self).peers@[peers@[i].0@] == peers@[i].1
            },
            channel_added(*old(self), *final(self), owner@, label@, added),
    {
        if self.labels.contains(label.as_str()) {
            // Adds message listener if user is already registered
            return ChannelAdded::Listen;
        }
        let _none = self.labels.insert(label, ());
        ChannelAdded::Create { peers: self.other_peers(owner) }
    }

    /// The peers that a message from `origin` is sent to: all but that peer.
    pub fn fanout_peers(&self, origin: &str) -> (peers: Vec<(String, u64)>)
        requires
            self.wf(),
        ensures
            peers@.map_values(|peer: (String, u64)| peer.0@) == self.others(origin@),
            forall|i: int|
                0 <= i < peers@.len() ==> self.peers@.contains_key((#[trigger] peers@[i]).0@)
                    && self.peers@[peers@[i].0@] == peers@[i].1,
    {
        self.other_peers(origin)
    }

    /// The peers whose tracks a peer subscribes to: all but that peer. The peer is to agree with the
    /// server on them afterwards.
    pub fn subscribe_peer(&self, peer_id: &str) -> (peers: Vec<(String, u64)>)
        requires
            self.wf(),
        ensures
            peers@.map_values(|peer: (String, u64)| peer.0@) == self.others(peer_id@),
            forall|i: int|
                0 <= i < peers@.len() ==> self.peers@.contains_key((#[trigger] peers@[i]).0@)
                    && self.peers@[peers@[i].0@] == peers@[i].1,
    {
        self.other_peers(peer_id)
    }

    /// The peers that a track of a router is published to: all but the one of the router.
    pub fn publish_track(&self, router_id: &str) -> (peers: Vec<(String, u64)>)
        requires
            self.wf(),
        ensures
            peers@.map_values(|peer: (String, u64)| peer.0@) == self.others(router_id@),
            forall|i: int|
                0 <= i < peers@.len() ==> self.peers@.contains_key((#[trigger] peers@[i]).0@)
                    && self.peers@[peers@[i].0@] == peers@[i].1,
    {
        self.other_peers(router_id)
    }

    /// The peers whose subscribers a message is sent to: all of them.
    pub fn send_to_subscribers(&self) -> (peers: Vec<(String, u64)>)
        requires
            self.wf(),
        ensures
            peers@.map_values(|peer: (String, u64)| peer.0@) == self.peers.order(),
            forall|i: int|
                0 <= i < peers@.len() ==> self.peers@.contains_key((#[trigger] peers@[i]).0@)
                    && self.peers@[peers@[i].0@] == peers@[i].1,
    {
        let mut peers: Vec<(String, u64)> = Vec::new();
        let n: usize = self.peers.len();
        let ghost order = self.peers.order();
        let ghost first = |peer: (String, u64)| peer.0@;
        let mut i: usize = 0;
        assert(peers@.map_values(first) =~= order.take(0));
        while i < n
            invariant
                self.wf(),
                order == self.peers.order(),
                first == (|peer: (String, u64)| peer.0@),
                i <= n == order.len(),
                peers@.map_values(first) == order.take(i as int),
                forall|k: int|
                    0 <= k < peers@.len() ==> self.peers@.contains_key((#[trigger] peers@[k]).0@)
                        && self.peers@[peers@[k].0@] == peers@[k].1,
            decreases n - i,
        {
            let ghost before = peers@;
            let (peer_id, peer) = self.peers.at(i);
            peers.push((peer_id.clone(), *peer));
            assert(peers@.map_values(first) =~= before.map_values(first).push(order[i as int]));
            assert(order.take(i + 1) =~= order.take(i as int).push(order[i as int]));
            i = i + 1;
        }
        assert(order.take(n as int) =~= order);
        peers
    }
}

/// A message, a track or a channel never goes back to the peer it came from, and goes to every other
/// peer in the room.
pub proof fn law_fanout_reaches_all_others(room: Room, origin: Seq<char>)
    requires
        room.wf(),
    ensures
        !room.others(origin).contains(origin),
        forall|peer: Seq<char>|
            peer != origin ==> (#[trigger] room.others(origin).contains(peer)
                <==> room.peers@.contains_key(peer)),
        room.others(origin).no_duplicates(),
{
    room.peers.lemma_order();
    let keep = other_than(origin);
    let order = room.peers.order();
    assert forall|peer: Seq<char>| #[trigger] room.others(origin).contains(peer) <==> order.contains(
        peer,
    ) && peer != origin by {
        lemma_filter_contains(order, keep, peer);
    }
    assert forall|peer: Seq<char>| peer != origin implies (#[trigger] room.others(origin).contains(
        peer,
    ) <==> room.peers@.contains_key(peer)) by {
        assert(room.peers@.contains_key(peer) <==> order.contains(peer));
    }
    lemma_filter_distinct(order, keep);
}

/// What is kept of a sequence are its elements that are to be kept.
proof fn lemma_filter_contains(
    s: Seq<Seq<char>>,
    keep: spec_fn(Seq<char>) -> bool,
    x: Seq<char>,
)
    ensures
        s.filter(keep).contains(x) <==> s.contains(x) && keep(x),
    decreases s.len(),
{
    reveal(Seq::filter);
    if s.len() > 0 {
        let rest = s.drop_last();
        lemma_filter_contains(rest, keep, x);
        assert(s =~= rest.push(s.last()));
        let kept = rest.filter(keep);
        if s.contains(x) {
            let i = choose|i: int| 0 <= i < s.len() && s[i] == x;
            if i < rest.len() {
                assert(rest[i] == x);
            }
        }
        if rest.contains(x) {
            let i = choose|i: int| 0 <= i < rest.len() && rest[i] == x;
            assert(s[i] == x);
        }
        if keep(s.last()) {
            assert(s.filter(keep) == kept.push(s.last()));
            if kept.contains(x) {
                let i = choose|i: int| 0 <= i < kept.len() && kept[i] == x;
                assert(kept.push(s.last())[i] == x);
            }
            assert(kept.push(s.last())[kept.len() as int] == s.last());
            if s.filter(keep).contains(x) && x != s.last() {
                let i = choose|i: int|
                    0 <= i < kept.push(s.last()).len() && kept.push(s.last())[i] == x;
                assert(kept[i] == x);
            }
        }
    }
}

/// What is kept of distinct elements is distinct.
proof fn lemma_filter_distinct(s: Seq<Seq<char>>, keep: spec_fn(Seq<char>) -> bool)
    requires
        s.no_duplicates(),
    ensures
        s.filter(keep).no_duplicates(),
    decreases s.len(),
{
    reveal(Seq::filter);
    if s.len() > 0 {
        let rest = s.drop_last();
        assert(rest.no_duplicates());
        lemma_filter_distinct(rest, keep);
        if keep(s.last()) {
            lemma_filter_contains(rest, keep, s.last());
            assert(!rest.contains(s.last())) by {
                if rest.contains(s.last()) {
                    let i = choose|i: int| 0 <= i < rest.len() && rest[i] == s.last();
                    assert(s[i] == s[s.len() - 1]);
                }
            }
            let kept = rest.filter(keep);
            assert(s.filter(keep) == kept.push(s.last()));
            assert forall|i: int, j: int|
                0 <= i < kept.len() + 1 && 0 <= j < kept.len() + 1 && i != j implies kept.push(
                s.last(),
            )[i] != kept.push(s.last())[j] by {
                if i < kept.len() && j < kept.len() {
                    assert(kept[i] != kept[j]);
                } else if i < kept.len() {
                    assert(kept.contains(kept[i]));
                } else if j < kept.len() {
                    assert(kept.contains(kept[j]));
                }
            }
        }
    }
}

/// Whether a data channel with the label was added: it is listened to where there is one with the
/// label, else the others are given one.
pub open spec fn channel_added(
    before: Room,
    after: Room,
    owner: Seq<char>,
    label: Seq<char>,
    added: ChannelAdded,
) -> bool {
    if before.labels@.contains_key(label) {
        added is Listen && after == before
    } else {
        &&& after == (Room { labels: after.labels, ..before })
        &&& after.labels@ == before.labels@.insert(label, ())
        &&& added matches ChannelAdded::Create { peers } && peers@.map_values(
            |peer: (String, u64)| peer.0@,
        ) == before.others(owner)
    }
}

/// A label is agreed on once: the first channel with it makes the others be given one, and every
/// later one, whoever opened it, is only listened to.
pub proof fn law_label_is_agreed_on_once(
    before: Room,
    between: Room,
    after: Room,
    owner: Seq<char>,
    other: Seq<char>,
    label: Seq<char>,
    first: ChannelAdded,
    second: ChannelAdded,
)
    requires
        !before.labels@.contains_key(label),
        channel_added(before, between, owner, label, first),
        channel_added(between, after, other, label, second),
    ensures
        first is Create,
        second is Listen,
        after == between,
        forall|known: Seq<char>|
            known != label ==> (#[trigger] after.labels@.contains_key(known)
                <==> before.labels@.contains_key(known)),
        after.peers == before.peers,
        after.users() == before.users(),
{
}

/// Every other peer is given a channel with the label, and the one that opened it is not.
pub proof fn law_channel_is_given_to_all_others(
    before: Room,
    after: Room,
    owner: Seq<char>,
    label: Seq<char>,
    added: ChannelAdded,
    peer: Seq<char>,
)
    requires
        before.wf(),
        channel_added(before, after, owner, label, added),
    ensures
        added matches ChannelAdded::Create { peers } ==> ((exists|i: int|
            0 <= i < peers@.len() && (#[trigger] peers@[i]).0@ == peer) <==> peer != owner
            && before.peers@.contains_key(peer)),
{
    if let ChannelAdded::Create { peers } = added {
        let names = peers@.map_values(|peer: (String, u64)| peer.0@);
        law_fanout_reaches_all_others(before, owner);
        assert(before.others(owner).contains(peer) <==> peer != owner && before.peers@.contains_key(
            peer,
        ));
        assert(names == before.others(owner));
        if names.contains(peer) {
            let i = choose|i: int| 0 <= i < names.len() && names[i] == peer;
            assert(peers@[i].0@ == peer);
        }
        if exists|i: int| 0 <= i < peers@.len() && (#[trigger] peers@[i]).0@ == peer {
            let i = choose|i: int| 0 <= i < peers@.len() && (#[trigger] peers@[i]).0@ == peer;
            assert(names[i] == peer);
        }
    }
}

/// A message is sent on the channels that are open, and on no others, in the order in which they
/// were found.
pub proof fn law_message_is_sent_on_open_channels(found: Seq<FoundChannel>, next: FoundChannel)
    ensures
        forall|channel: u64| #[trigger]
            open_channels(found).contains(channel) <==> exists|i: int|
                0 <= i < found.len() && (#[trigger] found[i]).open && found[i].channel == Some(
                    channel,
                ),
        next.open && next.channel is Some ==> open_channels(found.push(next)) == open_channels(
            found,
        ).push(next.channel->0),
        !next.open || next.channel is None ==> open_channels(found.push(next)) == open_channels(
            found,
        ),
    decreases found.len(),
{
    assert(found.push(next).drop_last() =~= found);
    if found.len() > 0 {
        let rest = found.drop_last();
        law_message_is_sent_on_open_channels(rest, found.last());
        assert(rest.push(found.last()) =~= found);
        assert forall|channel: u64| #[trigger] open_channels(found).contains(channel)
            <==> exists|i: int|
            0 <= i < found.len() && (#[trigger] found[i]).open && found[i].channel == Some(
                channel,
            ) by {
            let before = open_channels(rest);
            let now = open_channels(found);
            if now.contains(channel) {
                let k = choose|k: int| 0 <= k < now.len() && now[k] == channel;
                if k < before.len() {
                    assert(before[k] == channel);
                    assert(before.contains(channel));
                    let i = choose|i: int|
                        0 <= i < rest.len() && (#[trigger] rest[i]).open && rest[i].channel == Some(
                            channel,
                        );
                    assert(found[i].open && found[i].channel == Some(channel));
                } else {
                    assert(found[found.len() - 1].channel == Some(channel));
                }
            }
            if exists|i: int|
                0 <= i < found.len() && (#[trigger] found[i]).open && found[i].channel == Some(
                    channel,
                ) {
                let i = choose|i: int|
                    0 <= i < found.len() && (#[trigger] found[i]).open && found[i].channel == Some(
                        channel,
                    );
                if i < rest.len() {
                    assert(rest[i].open && rest[i].channel == Some(channel));
                    assert(before.contains(channel));
                    let k = choose|k: int| 0 <= k < before.len() && before[k] == channel;
                    assert(now[k] == channel);
                } else {
                    assert(now[now.len() - 1] == channel);
                }
            }
        }
    }
}

} // verus!
