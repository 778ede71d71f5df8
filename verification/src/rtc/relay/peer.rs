use ulid::Ulid;
use vstd::prelude::*;

use crate::packet::params::{codec_type_of, kind_of, RTCRtpCodecParameters, RTPCodecType};
use crate::registry::Registry;
use crate::rtc::relay::error::Error;
use crate::session::room::RoomEvent;

verus! {

pub type Result<T> = core::result::Result<T, Error>;

/// How long the answer to a request is awaited, in seconds.
pub const REQUEST_TIMEOUT_SECONDS: u64 = 2;

/// What a relay tells of a track.
pub struct TrackMeta {
    pub stream_id: String,
    pub track_id: String,
    pub codec_parameters: Option<RTCRtpCodecParameters>,
}

/// What packets of a track are sent with.
pub struct CodingParameters {
    pub rid: String,
    pub ssrc: u32,
    pub payload_type: u8,
}

/// What a relay is told of a track that is added to it.
pub struct TrackSignal {
    pub encodings: CodingParameters,
    pub track_meta: TrackMeta,
}

/// What is asked of a relay.
pub struct Request {
    pub id: String,
    pub is_reply: bool,
    pub event: RoomEvent,
}

/// What a relay is known by.
pub struct PeerMeta {
    pub peer_id: String,
    pub room_id: String,
}

/// Who decides which way two peers are connected.
#[derive(Debug, Eq, PartialEq, Clone, Copy, Structural)]
pub enum IceRole {
    Unspecified,
    Controlling,
    Controlled,
}

/// What is stopped when a relay is closed.
#[derive(Debug, Eq, PartialEq, Clone, Copy, Structural)]
pub enum CloseStep {
    StopSender(u64),
    StopReceiver(u64),
    StopSctp,
    StopDtls,
    StopIce,
    /// Whoever has registered is told.
    Tell,
}

/// What came of a request.
pub enum Outcome {
    /// There was no answer in time.
    Timeout,
    /// The answer, or none.
    Answered(Option<Vec<u8>>),
}

/// A peer that tracks are relayed to.
pub struct Peer {
    pub peer_meta: PeerMeta,
    pub ice_role: IceRole,
    pub ready: bool,
    pub rtp_senders: Vec<u64>,
    pub rtp_receivers: Vec<u64>,
    pub local_tracks: Vec<u64>,
    /// The requests that wait for their answers, by id.
    pub pending_requests: Registry<u64>,
    /// Whether someone has registered to hear that the peer is closed.
    pub on_close: bool,
}

/// A peer that tracks are relayed to, and its data channels.
pub struct RelayPeer {
    pub peer: Peer,
    pub data_channels: Vec<u64>,
}

/// Calls `ulid::Ulid::new`, which creates an identifier from the time and from chance, and writes it
/// down in 26 characters.
#[verifier::external_body]
fn new_id() -> (id: String)
    ensures
        id@.len() == 26,
{
    Ulid::new().to_string()
}

/// What is stopped when a relay is closed, in its order.
pub open spec fn close_steps(senders: Seq<u64>, receivers: Seq<u64>, tells: bool) -> Seq<CloseStep> {
    let transports = senders.map_values(|sender: u64| CloseStep::StopSender(sender))
        + receivers.map_values(|receiver: u64| CloseStep::StopReceiver(receiver))
        + seq![CloseStep::StopSctp, CloseStep::StopDtls, CloseStep::StopIce];
    if tells {
        transports.push(CloseStep::Tell)
    } else {
        transports
    }
}

/// The encodings that a track is received with: the one with its SSRC, if it has one, and the one with
/// its layer.
pub open spec fn encodings_of(ssrc: u32, rid: Seq<char>) -> Seq<(Seq<char>, u32)> {
    if ssrc != 0 {
        seq![(seq![], ssrc), (rid, 0u32)]
    } else {
        seq![(rid, 0u32)]
    }
}

/// What is received of a track.
pub struct Reception {
    pub codec_type: RTPCodecType,
    pub encodings: Vec<CodingParameters>,
}

/// The encodings to receive a track with.
pub fn receive(mime_type: &str, ssrc: u32, rid: String) -> (reception: Reception)
    ensures
        reception.codec_type == codec_type_of(mime_type@),
        reception.encodings@.map_values(|coding: CodingParameters| (coding.rid@, coding.ssrc))
            == encodings_of(ssrc, rid@),
        forall|i: int|
            0 <= i < reception.encodings@.len() ==> (
            #[trigger] reception.encodings@[i]).payload_type == 0,
{
    let mut encodings: Vec<CodingParameters> = Vec::new();
    if ssrc != 0 {
        encodings.push(CodingParameters { rid: String::new(), ssrc, payload_type: 0 });
    }
    encodings.push(CodingParameters { rid, ssrc: 0, payload_type: 0 });
    assert(encodings@.map_values(|coding: CodingParameters| (coding.rid@, coding.ssrc))
        =~= encodings_of(ssrc, rid@));
    Reception { codec_type: kind_of(mime_type), encodings }
}

impl Peer {
    /// What every operation keeps.
    pub open spec fn wf(&self) -> bool {
        self.pending_requests.wf()
    }

    pub fn new(meta: PeerMeta) -> (peer: Self)
        ensures
            peer.wf(),
            peer.peer_meta == meta,
            peer.ice_role == IceRole::Unspecified,
            !peer.ready,
            peer.rtp_senders@.len() == 0,
            peer.rtp_receivers@.len() == 0,
            peer.local_tracks@.len() == 0,
            peer.pending_requests@ == Map::<Seq<char>, u64>::empty(),
            !peer.on_close,
    {
        Self {
            peer_meta: meta,
            ice_role: IceRole::Unspecified,
            ready: false,
            rtp_senders: Vec::new(),
            rtp_receivers: Vec::new(),
            local_tracks: Vec::new(),
            pending_requests: Registry::new(),
            on_close: false,
        }
    }

    /// Takes note that someone has registered to hear that the peer is closed.
    pub fn on_close(&mut self)
        ensures
            *final(self) == (Peer { on_close: true, ..*old(self) }),
    {
        self.on_close = true;
    }

    /// Starts to answer the signal of the other side, which is in control. This is done once.
    ///
    /// # Arguments
    /// - `gathering_new`: Whether no candidates were gathered yet
    ///
    /// # Returns
    /// - `Error::ErrRelayPeerSignalDone` if candidates were gathered already
    pub fn answer(&mut self, gathering_new: bool) -> (res: Result<()>)
        ensures
            if gathering_new {
                res == Ok::<(), Error>(()) && *final(self) == (Peer {
                    ice_role: IceRole::Controlled,
                    ..*old(self)
                })
            } else {
                res == Err::<(), Error>(Error::ErrRelayPeerSignalDone) && *final(self) == *old(self)
            },
    {
        if !gathering_new {
            return Err(Error::ErrRelayPeerSignalDone);
        }
        self.ice_role = IceRole::Controlled;
        Ok(())
    }

    /// Takes note that the transports were started.
    pub fn start(&mut self)
        ensures
            *final(self) == (Peer { ready: true, ..*old(self) }),
    {
        self.ready = true;
    }

    /// What is to be stopped to close the peer, in its order.
    pub fn close(&self) -> (steps: Vec<CloseStep>)
        ensures
            steps@ == close_steps(self.rtp_senders@, self.rtp_receivers@, self.on_close),
    {
        let mut steps: Vec<CloseStep> = Vec::new();
        let ghost senders = self.rtp_senders@.map_values(
            |sender: u64| CloseStep::StopSender(sender),
        );
        let ghost receivers = self.rtp_receivers@.map_values(
            |receiver: u64| CloseStep::StopReceiver(receiver),
        );
        let mut i: usize = 0;
        while i < self.rtp_senders.len()
            invariant
                senders == self.rtp_senders@.map_values(
                    |sender: u64| CloseStep::StopSender(sender),
                ),
                i <= self.rtp_senders@.len(),
                steps@ == senders.take(i as int),
            decreases self.rtp_senders@.len() - i,
        {
            steps.push(CloseStep::StopSender(self.rtp_senders[i]));
            assert(senders.take(i + 1) =~= senders.take(i as int).push(senders[i as int]));
            i = i + 1;
        }
        assert(senders.take(i as int) =~= senders);
        let mut k: usize = 0;
        assert(steps@ =~= senders + receivers.take(0));
        while k < self.rtp_receivers.len()
            invariant
                receivers == self.rtp_receivers@.map_values(
                    |receiver: u64| CloseStep::StopReceiver(receiver),
                ),
                k <= self.rtp_receivers@.len(),
                steps@ == senders + receivers.take(k as int),
            decreases self.rtp_receivers@.len() - k,
        {
            steps.push(CloseStep::StopReceiver(self.rtp_receivers[k]));
            assert(receivers.take(k + 1) =~= receivers.take(k as int).push(receivers[k as int]));
            assert(steps@ =~= senders + receivers.take(k + 1));
            k = k + 1;
        }
        assert(receivers.take(k as int) =~= receivers);
        steps.push(CloseStep::StopSctp);
        steps.push(CloseStep::StopDtls);
        steps.push(CloseStep::StopIce);
        if self.on_close {
            steps.push(CloseStep::Tell);
        }
        assert(steps@ =~= close_steps(self.rtp_senders@, self.rtp_receivers@, self.on_close));
        steps
    }

    /// Takes note of a receiver that was started.
    pub fn receiver_started(&mut self, receiver: u64)
        ensures
            *final(self) == (Peer { rtp_receivers: final(self).rtp_receivers, ..*old(self) }),
            final(self).rtp_receivers@ == old(self).rtp_receivers@.push(receiver),
    {
        self.rtp_receivers.push(receiver);
    }

    /// What the other side is told of a track that is added.
    pub fn add_track(
        &self,
        stream_id: String,
        track_id: String,
        codec: RTCRtpCodecParameters,
        sender_ssrc: u32,
        payload_type: u8,
    ) -> (signal: TrackSignal)
        ensures
            signal.track_meta.stream_id == stream_id,
            signal.track_meta.track_id == track_id,
            signal.track_meta.codec_parameters == Some(codec),
            signal.encodings.ssrc == sender_ssrc,
            signal.encodings.payload_type == payload_type,
            signal.encodings.rid@.len() == 0,
    {
        TrackSignal {
            encodings: CodingParameters { rid: String::new(), ssrc: sender_ssrc, payload_type },
            track_meta: TrackMeta { stream_id, track_id, codec_parameters: Some(codec) },
        }
    }

    /// Takes note of a track that was added, and of its sender.
    pub fn track_added(&mut self, local_track: u64, sender: u64)
        ensures
            *final(self) == (Peer {
                local_tracks: final(self).local_tracks,
                rtp_senders: final(self).rtp_senders,
                ..*old(self)
            }),
            final(self).local_tracks@ == old(self).local_tracks@.push(local_track),
            final(self).rtp_senders@ == old(self).rtp_senders@.push(sender),
    {
        self.local_tracks.push(local_track);
        self.rtp_senders.push(sender);
    }

    /// Takes note of a request that waits for its answer.
    pub fn open_request(&mut self, id: String, request: u64)
        requires
            old(self).wf(),
        ensures
            final(self).wf(),
            *final(self) == (Peer { pending_requests: final(self).pending_requests, ..*old(self) }),
            final(self).pending_requests@ == old(self).pending_requests@.insert(id@, request),
    {
        let _before = self.pending_requests.insert(id, request);
    }

    /// Takes note of a request that waits for its answer, under a new id.
    pub fn request(&mut self, request: u64) -> (id: String)
        requires
            old(self).wf(),
        ensures
            final(self).wf(),
            id@.len() == 26,
            *final(self) == (Peer { pending_requests: final(self).pending_requests, ..*old(self) }),
            final(self).pending_requests@ == old(self).pending_requests@.insert(id@, request),
    {
        let id = new_id();
        self.open_request(id.clone(), request);
        id
    }

    /// Ends a request.
    ///
    /// # Returns
    /// - The answer
    /// - `Error::ErrRelayRequestTimeout` if there was none in time
    /// - `Error::ErrRelayRequestEmptyRespose` if it was empty
    pub fn request_done(&mut self, id: &str, outcome: Outcome) -> (res: Result<Vec<u8>>)
        requires
            old(self).wf(),
        ensures
            final(self).wf(),
            *final(self) == (Peer { pending_requests: final(self).pending_requests, ..*old(self) }),
            final(self).pending_requests@ == old(self).pending_requests@.remove(id@),
            res == match outcome {
                Outcome::Timeout => Err::<Vec<u8>, Error>(Error::ErrRelayRequestTimeout),
                Outcome::Answered(Some(payload)) => Ok::<Vec<u8>, Error>(payload),
                Outcome::Answered(None) => Err::<Vec<u8>, Error>(
                    Error::ErrRelayRequestEmptyRespose,
                ),
            },
            request_ended(*old(self), *final(self), id@, outcome, res),
    {
        let _request = self.pending_requests.remove(id);
        match outcome {
            Outcome::Timeout => Err(Error::ErrRelayRequestTimeout),
            Outcome::Answered(Some(payload)) => Ok(payload),
            Outcome::Answered(None) => Err(Error::ErrRelayRequestEmptyRespose),
        }
    }
}

/// A request under a new id leaves nothing behind once it is done, whatever came of it.
pub proof fn law_request_leaves_nothing(pending: Map<Seq<char>, u64>, id: Seq<char>, request: u64)
    requires
        !pending.contains_key(id),
    ensures
        pending.insert(id, request).remove(id) == pending,
{
    assert(pending.insert(id, request).remove(id) =~= pending);
}

/// Every sender and every receiver is stopped, and then the transports below them, from the top down.
/// Whoever has registered is told at the end.
pub proof fn law_everything_is_stopped(senders: Seq<u64>, receivers: Seq<u64>, tells: bool)
    ensures
        forall|sender: u64|
            senders.contains(sender) <==> #[trigger] close_steps(senders, receivers, tells).contains(
                CloseStep::StopSender(sender),
            ),
        forall|receiver: u64|
            receivers.contains(receiver) <==> #[trigger] close_steps(
                senders,
                receivers,
                tells,
            ).contains(CloseStep::StopReceiver(receiver)),
        close_steps(senders, receivers, tells).contains(CloseStep::Tell) <==> tells,
        tells ==> close_steps(senders, receivers, tells).last() == CloseStep::Tell,
        ({
            let steps = close_steps(senders, receivers, tells);
            let media = (senders.len() + receivers.len()) as int;
            &&& steps.len() == media + 3 + if tells {
                1int
            } else {
                0int
            }
            &&& steps[media] == CloseStep::StopSctp
            &&& steps[media + 1] == CloseStep::StopDtls
            &&& steps[media + 2] == CloseStep::StopIce
        }),
{
    let steps = close_steps(senders, receivers, tells);
    let media = (senders.len() + receivers.len()) as int;
    assert forall|sender: u64| senders.contains(sender) <==> #[trigger] steps.contains(
        CloseStep::StopSender(sender),
    ) by {
        if senders.contains(sender) {
            let i = choose|i: int| 0 <= i < senders.len() && senders[i] == sender;
            assert(steps[i] == CloseStep::StopSender(sender));
        }
        if steps.contains(CloseStep::StopSender(sender)) {
            let i = choose|i: int|
                0 <= i < steps.len() && steps[i] == CloseStep::StopSender(sender);
            assert(i < senders.len());
            assert(senders[i] == sender);
        }
    }
    assert forall|receiver: u64| receivers.contains(receiver) <==> #[trigger] steps.contains(
        CloseStep::StopReceiver(receiver),
    ) by {
        if receivers.contains(receiver) {
            let i = choose|i: int| 0 <= i < receivers.len() && receivers[i] == receiver;
            assert(steps[senders.len() + i] == CloseStep::StopReceiver(receiver));
        }
        if steps.contains(CloseStep::StopReceiver(receiver)) {
            let i = choose|i: int|
                0 <= i < steps.len() && steps[i] == CloseStep::StopReceiver(receiver);
            assert(senders.len() <= i < media);
            assert(receivers[i - senders.len()] == receiver);
        }
    }
    if tells {
        assert(steps[media + 3] == CloseStep::Tell);
    }
}

/// A track is received by its layer, whatever its SSRC, and by its SSRC just if it has one.
pub proof fn law_track_is_received_by_its_layer(ssrc: u32, rid: Seq<char>)
    ensures
        encodings_of(ssrc, rid).last() == (rid, 0u32),
        encodings_of(ssrc, rid).len() == if ssrc == 0 {
            1int
        } else {
            2int
        },
        ssrc != 0 ==> encodings_of(ssrc, rid)[0].1 == ssrc && encodings_of(ssrc, rid)[0].0.len()
            == 0,
{
}

/// Whether the request is done, with what came of it.
pub open spec fn request_ended(
    before: Peer,
    after: Peer,
    id: Seq<char>,
    outcome: Outcome,
    res: Result<Vec<u8>>,
) -> bool {
    &&& after.pending_requests@ == before.pending_requests@.remove(id)
    &&& res == match outcome {
        Outcome::Timeout => Err::<Vec<u8>, Error>(Error::ErrRelayRequestTimeout),
        Outcome::Answered(Some(payload)) => Ok::<Vec<u8>, Error>(payload),
        Outcome::Answered(None) => Err::<Vec<u8>, Error>(Error::ErrRelayRequestEmptyRespose),
    }
}

/// A request succeeds just if it was answered with something, which is what it gives. It does not wait
/// any longer, and every other request does.
pub proof fn law_answer_is_what_the_request_gives(
    before: Peer,
    after: Peer,
    id: Seq<char>,
    outcome: Outcome,
    res: Result<Vec<u8>>,
    other: Seq<char>,
)
    requires
        request_ended(before, after, id, outcome, res),
        other != id,
    ensures
        res is Ok <==> (outcome matches Outcome::Answered(answer) && answer is Some),
        outcome matches Outcome::Answered(Some(payload)) ==> res == Ok::<Vec<u8>, Error>(payload),
        outcome is Timeout ==> res == Err::<Vec<u8>, Error>(Error::ErrRelayRequestTimeout),
        outcome == Outcome::Answered(None) ==> res == Err::<Vec<u8>, Error>(
            Error::ErrRelayRequestEmptyRespose,
        ),
        !after.pending_requests@.contains_key(id),
        after.pending_requests@.contains_key(other) <==> before.pending_requests@.contains_key(
            other,
        ),
{
}

} // verus!
