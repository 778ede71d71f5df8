use vstd::prelude::*;

verus! {

/// A way to reach a peer, as it is told to the other side.
pub struct RTCIceCandidateInit {
    pub candidate: String,
    pub sdp_mid: Option<String>,
    pub sdp_mline_index: Option<u16>,
    pub username_fragment: Option<String>,
}

/// A way to reach a peer.
pub ghost struct IceCandidate {
    pub candidate: Seq<char>,
    pub sdp_mid: Option<Seq<char>>,
    pub sdp_mline_index: Option<u16>,
    pub username_fragment: Option<Seq<char>>,
}

/// The characters of a string, if there is one.
pub open spec fn text_of(s: Option<String>) -> Option<Seq<char>> {
    match s {
        Some(text) => Some(text@),
        None => None,
    }
}

fn copy_text(s: &Option<String>) -> (res: Option<String>)
    ensures
        text_of(res) == text_of(*s),
{
    match s {
        Some(text) => Some(text.clone()),
        None => None,
    }
}

impl View for RTCIceCandidateInit {
    type V = IceCandidate;

    open spec fn view(&self) -> IceCandidate {
        IceCandidate {
            candidate: self.candidate@,
            sdp_mid: text_of(self.sdp_mid),
            sdp_mline_index: self.sdp_mline_index,
            username_fragment: text_of(self.username_fragment),
        }
    }
}

impl RTCIceCandidateInit {
    /// A copy of the candidate.
    pub fn copy(&self) -> (candidate: RTCIceCandidateInit)
        ensures
            candidate@ == self@,
    {
        RTCIceCandidateInit {
            candidate: self.candidate.clone(),
            sdp_mid: copy_text(&self.sdp_mid),
            sdp_mline_index: self.sdp_mline_index,
            username_fragment: copy_text(&self.username_fragment),
        }
    }
}

/// The candidates in a list.
pub open spec fn candidates_of(list: Seq<RTCIceCandidateInit>) -> Seq<IceCandidate> {
    list.map_values(|candidate: RTCIceCandidateInit| candidate@)
}

/// Candidates that wait for the description of the other side, in the order in which they came.
pub struct CandidateQueue {
    pub waiting: Vec<RTCIceCandidateInit>,
}

impl CandidateQueue {
    pub fn new() -> (queue: Self)
        ensures
            queue.waiting@.len() == 0,
    {
        Self { waiting: Vec::new() }
    }

    /// Adds a candidate to a peer.
    /// If the connection does not have a remote description yet, candidates are stored.
    ///
    /// # Returns
    /// - The candidate, if it is to be added to the connection now
    pub fn add_ice_candidate(
        &mut self,
        candidate: RTCIceCandidateInit,
        has_remote_description: bool,
    ) -> (res: Option<RTCIceCandidateInit>)
        ensures
            has_remote_description ==> res == Some(candidate) && *final(self) == *old(self),
            !has_remote_description ==> res is None && final(self).waiting@
                == old(self).waiting@.push(candidate),
            queued(*old(self), *final(self), candidate, has_remote_description, res),
    {
        if has_remote_description {
            return Some(candidate);
        }
        self.waiting.push(candidate);
        None
    }

    /// Copies of the candidates that wait.
    pub fn copies(&self) -> (res: Vec<RTCIceCandidateInit>)
        ensures
            candidates_of(res@) == candidates_of(self.waiting@),
    {
        let mut res: Vec<RTCIceCandidateInit> = Vec::new();
        let mut i: usize = 0;
        while i < self.waiting.len()
            invariant
                i <= self.waiting@.len(),
                res@.len() == i,
                forall|k: int| 0 <= k < i ==> (#[trigger] res@[k])@ == self.waiting@[k]@,
            decreases self.waiting@.len() - i,
        {
            res.push(self.waiting[i].copy());
            i = i + 1;
        }
        assert(candidates_of(res@) =~= candidates_of(self.waiting@));
        res
    }

    /// Takes out the candidates that wait, to add them to the connection.
    pub fn take(&mut self) -> (res: Vec<RTCIceCandidateInit>)
        ensures
            res@ == old(self).waiting@,
            final(self).waiting@.len() == 0,
    {
        let mut res: Vec<RTCIceCandidateInit> = Vec::new();
        std::mem::swap(&mut res, &mut self.waiting);
        res
    }

    /// Forgets the candidates that wait.
    pub fn clear(&mut self)
        ensures
            final(self).waiting@.len() == 0,
    {
        self.waiting.clear();
    }
}

/// Whether the candidate was handed on, or waits behind the others.
pub open spec fn queued(
    before: CandidateQueue,
    after: CandidateQueue,
    candidate: RTCIceCandidateInit,
    has_remote_description: bool,
    res: Option<RTCIceCandidateInit>,
) -> bool {
    &&& has_remote_description ==> res == Some(candidate) && after == before
    &&& !has_remote_description ==> res is None && after.waiting@ == before.waiting@.push(candidate)
}

/// A candidate that comes before the description of the other side waits, and is not handed on yet;
/// one that comes after it is handed on, and does not wait.
pub proof fn law_candidate_waits_for_the_description(
    before: CandidateQueue,
    after: CandidateQueue,
    candidate: RTCIceCandidateInit,
    has_remote_description: bool,
    res: Option<RTCIceCandidateInit>,
)
    requires
        queued(before, after, candidate, has_remote_description, res),
    ensures
        res is Some <==> has_remote_description,
        res matches Some(handed) ==> handed == candidate,
        after.waiting@.len() == before.waiting@.len() + if has_remote_description {
            0int
        } else {
            1int
        },
        !has_remote_description ==> after.waiting@.last() == candidate,
        forall|i: int|
            0 <= i < before.waiting@.len() ==> #[trigger] after.waiting@[i] == before.waiting@[i],
{
}

} // verus!
