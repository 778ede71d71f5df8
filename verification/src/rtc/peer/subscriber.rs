use vstd::prelude::*;

use crate::peer::ice::{CandidateQueue, RTCIceCandidateInit};
use crate::peer::negotiation::RTCOfferOptions;
use crate::peer::streams::{refs_of, StreamTracks, TrackRef};
use crate::peer::subscriber::IceConnectionState;
use crate::registry::Registry;

verus! {

/// How often a source description is sent.
pub const REPORT_TIMES: u8 = 5;

/// What a message could not be sent for.
#[derive(Debug, Eq, PartialEq, Clone, Copy, Structural)]
pub enum SendFailure {
    /// The channel is not open any longer.
    NotOpen,
    Other,
}

/// Sends tracks to a client.
pub struct Subscriber {
    pub id: String,
    pub no_auto_subscribe: bool,
    pub tracks: StreamTracks,
    pub channels: Registry<u64>,
    pub candidates: CandidateQueue,
    /// Whether someone has registered to agree with the client.
    pub on_negotiate: bool,
    /// Whether someone has registered to agree with the client again.
    pub on_renegotiate: bool,
    /// Whether the channel to the client is to be opened again.
    pub negotiation_pending: bool,
    pub api_channel: u64,
    pub api_channel_open: bool,
}

impl Subscriber {
    /// What every operation keeps.
    pub open spec fn wf(&self) -> bool {
        self.tracks.wf() && self.channels.wf()
    }

    /// Creates a subscriber, which talks to its client on the given channel.
    pub fn new(id: String, api_channel: u64) -> (subscriber: Self)
        ensures
            subscriber.wf(),
            subscriber.id == id,
            !subscriber.no_auto_subscribe,
            subscriber.tracks@ == Map::<Seq<char>, Seq<(Seq<char>, u64)>>::empty(),
            subscriber.channels@ == Map::<Seq<char>, u64>::empty(),
            subscriber.candidates.waiting@.len() == 0,
            !subscriber.on_negotiate,
            !subscriber.on_renegotiate,
            !subscriber.negotiation_pending,
            subscriber.api_channel == api_channel,
            !subscriber.api_channel_open,
    {
        Self {
            id,
            no_auto_subscribe: false,
            tracks: StreamTracks::new(),
            channels: Registry::new(),
            candidates: CandidateQueue::new(),
            on_negotiate: false,
            on_renegotiate: false,
            negotiation_pending: false,
            api_channel,
            api_channel_open: false,
        }
    }

    pub fn api_channel(&self) -> (channel: u64)
        ensures
            channel == self.api_channel,
    {
        self.api_channel
    }

    /// Takes note that the channel to the client was opened or closed.
    pub fn set_api_channel_open(&mut self, open: bool)
        ensures
            *final(self) == (Subscriber { api_channel_open: open, ..*old(self) }),
    {
        self.api_channel_open = open;
    }

    /// Stores a channel on which a client says what it wants to receive.
    pub fn add_data_channel(&mut self, label: &str, channel: u64)
        requires
            old(self).wf(),
        ensures
            final(self).wf(),
            *final(self) == (Subscriber { channels: final(self).channels, ..*old(self) }),
            final(self).channels@ == old(self).channels@.insert(label@, channel),
    {
        let _before = self.channels.insert(label.to_owned(), channel);
    }

    pub fn register_data_channel(&mut self, label: String, dc: u64)
        requires
            old(self).wf(),
        ensures
            final(self).wf(),
            *final(self) == (Subscriber { channels: final(self).channels, ..*old(self) }),
            final(self).channels@ == old(self).channels@.insert(label@, dc),
    {
        let _before = self.channels.insert(label, dc);
    }

    pub fn data_channel(&self, label: &str) -> (res: Option<u64>)
        requires
            self.wf(),
        ensures
            res == if self.channels@.contains_key(label@) {
                Some(self.channels@[label@])
            } else {
                None
            },
    {
        match self.channels.get(label) {
            Some(channel) => Some(*channel),
            None => None,
        }
    }

    /// Stores a channel that was created for the client, unless there is one with the label.
    ///
    /// # Returns
    /// - The channel with the label
    pub fn create_data_channel(&mut self, label: String, created: u64) -> (channel: u64)
        requires
            old(self).wf(),
        ensures
            final(self).wf(),
            *final(self) == (Subscriber { channels: final(self).channels, ..*old(self) }),
            if old(self).channels@.contains_key(label@) {
                channel == old(self).channels@[label@] && *final(self) == *old(self)
            } else {
                channel == created && final(self).channels@ == old(self).channels@.insert(
                    label@,
                    created,
                )
            },
    {
        match self.data_channel(label.as_str()) {
            Some(channel) => channel,
            None => {
                let _none = self.channels.insert(label, created);
                created
            },
        }
    }

    /// Stores a track of a stream that is known. Otherwise the stream is taken note of.
    pub fn add_down_track(&mut self, stream_id: String, down_track: TrackRef)
        requires
            old(self).wf(),
        ensures
            final(self).wf(),
            *final(self) == (Subscriber { tracks: final(self).tracks, ..*old(self) }),
            final(self).tracks@ == old(self).tracks@.insert(
                stream_id@,
                if old(self).tracks@.contains_key(stream_id@) {
                    old(self).tracks@[stream_id@].push(down_track@)
                } else {
                    seq![]
                },
            ),
    {
        self.tracks.push_known(stream_id, down_track);
    }

    pub fn get_tracks(&self, stream_id: &str) -> (res: Option<&Vec<TrackRef>>)
        requires
            self.wf(),
        ensures
            match res {
                None => !self.tracks@.contains_key(stream_id@),
                Some(list) => self.tracks@.contains_key(stream_id@) && refs_of(list@)
                    == self.tracks@[stream_id@],
            },
    {
        self.tracks.get_tracks(stream_id)
    }

    pub fn remove_down_track(&mut self, stream_id: &str, down_track: &str)
        requires
            old(self).wf(),
        ensures
            final(self).wf(),
            *final(self) == (Subscriber { tracks: final(self).tracks, ..*old(self) }),
            final(self).tracks@ == if old(self).tracks@.contains_key(stream_id@) {
                old(self).tracks@.insert(
                    stream_id@,
                    old(self).tracks@[stream_id@].filter(
                        |track: (Seq<char>, u64)| track.0 != down_track@,
                    ),
                )
            } else {
                old(self).tracks@
            },
    {
        self.tracks.remove_down_track(stream_id, down_track);
    }

    /// Adds a candidate to this peer.
    /// If the connection does not have a remote description yet, candidates are stored.
    pub fn add_ice_candidate(
        &mut self,
        candidate: RTCIceCandidateInit,
        has_remote_description: bool,
    ) -> (res: Option<RTCIceCandidateInit>)
        ensures
            *final(self) == (Subscriber { candidates: final(self).candidates, ..*old(self) }),
            has_remote_description ==> res == Some(candidate) && final(self).candidates
                == old(self).candidates,
            !has_remote_description ==> res is None && final(self).candidates.waiting@
                == old(self).candidates.waiting@.push(candidate),
    {
        self.candidates.add_ice_candidate(candidate, has_remote_description)
    }

    /// Takes note that someone has registered to agree with the client.
    pub fn register_on_negotiate(&mut self)
        ensures
            *final(self) == (Subscriber { on_negotiate: true, ..*old(self) }),
    {
        self.on_negotiate = true;
    }

    /// Takes note that someone has registered to agree with the client again.
    pub fn register_on_renegotiate(&mut self)
        ensures
            *final(self) == (Subscriber { on_renegotiate: true, ..*old(self) }),
    {
        self.on_renegotiate = true;
    }

    /// What to agree with the client on, if someone has registered for it.
    pub fn negotiate(&self, offer_options: Option<RTCOfferOptions>) -> (res: Option<
        Option<RTCOfferOptions>,
    >)
        ensures
            res == if self.on_negotiate {
                Some(offer_options)
            } else {
                None
            },
    {
        if self.on_negotiate {
            Some(offer_options)
        } else {
            None
        }
    }

    /// Negotiates with the given ice_restart value
    pub fn renegotiate(&self, ice_restart: bool) -> (res: Option<Option<RTCOfferOptions>>)
        ensures
            res == if self.on_negotiate {
                Some(Some(RTCOfferOptions { voice_activity_detection: true, ice_restart }))
            } else {
                None
            },
    {
        self.negotiate(Some(RTCOfferOptions { voice_activity_detection: true, ice_restart }))
    }

    /// Whether the connection is to be restarted, in a new state.
    pub fn on_ice_connection_state_change(&self, state: IceConnectionState) -> (restarts: bool)
        ensures
            restarts == (state == IceConnectionState::Failed),
    {
        match state {
            IceConnectionState::Failed => true,
            _ => false,
        }
    }

    /// Whether a message is sent to the client.
    pub fn send_message(&self) -> (sends: bool)
        ensures
            sends == self.api_channel_open,
    {
        self.api_channel_open
    }

    /// Whether the channel is to be opened again, after a message could not be sent. Once is enough
    /// until the client has answered.
    pub fn send_failed(&self, failure: SendFailure) -> (renegotiates: bool)
        ensures
            renegotiates == (failure == SendFailure::NotOpen && !self.negotiation_pending),
    {
        match failure {
            SendFailure::NotOpen => !self.negotiation_pending,
            SendFailure::Other => false,
        }
    }

    /// Takes note that the channel is being opened again.
    pub fn renegotiated(&mut self)
        ensures
            *final(self) == (Subscriber { negotiation_pending: true, ..*old(self) }),
    {
        self.negotiation_pending = true;
    }

    /// Takes note that the remote description was set.
    ///
    /// # Returns
    /// - The candidates to add to the connection
    pub fn set_remote_description(&mut self) -> (candidates: Vec<RTCIceCandidateInit>)
        ensures
            *final(self) == (Subscriber {
                candidates: final(self).candidates,
                negotiation_pending: false,
                ..*old(self)
            }),
            candidates@ == old(self).candidates.waiting@,
            final(self).candidates.waiting@.len() == 0,
    {
        self.negotiation_pending = false;
        self.candidates.take()
    }
}

} // verus!
