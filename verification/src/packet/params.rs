use vstd::prelude::*;

use crate::text::{lowercase, same, starts_with, to_lowercase};

verus! {

/// Feedback that asks for a bitrate.
pub const TYPE_RTCP_FB_GOOG_REMB: &'static str = "goog-remb";

/// Feedback for transport wide congestion control.
pub const TYPE_RTCP_FB_TRANSPORT_CC: &'static str = "transport-cc";

/// Feedback that asks for lost packets.
pub const TYPE_RTCP_FB_NACK: &'static str = "nack";

/// Header extension for transport wide congestion control.
pub const TRANSPORT_CC_URI: &'static str =
    "http://www.ietf.org/id/draft-holmer-rmcat-transport-wide-cc-extensions-01";

/// Header extension with the audio level.
pub const AUDIO_LEVEL_URI: &'static str = "urn:ietf:params:rtp-hdrext:ssrc-audio-level";

/// What a codec is for.
#[derive(Debug, Eq, PartialEq, Clone, Copy, Structural)]
pub enum RTPCodecType {
    Unspecified,
    Audio,
    Video,
}

/// A kind of feedback that a codec supports.
pub struct RTCPFeedback {
    pub typ: String,
    pub parameter: String,
}

/// A codec, as it was agreed on.
pub struct RTCRtpCodecCapability {
    pub mime_type: String,
    pub clock_rate: u32,
    pub channels: u16,
    pub sdp_fmtp_line: String,
    pub rtcp_feedback: Vec<RTCPFeedback>,
}

/// A codec, as it was agreed on.
pub ghost struct Capability {
    pub mime_type: Seq<char>,
    pub clock_rate: u32,
    pub channels: u16,
    pub sdp_fmtp_line: Seq<char>,
    /// The kinds of feedback, each with its parameter.
    pub rtcp_feedback: Seq<(Seq<char>, Seq<char>)>,
}

/// The kinds of feedback in a list, each with its parameter.
pub open spec fn feedback_of(list: Seq<RTCPFeedback>) -> Seq<(Seq<char>, Seq<char>)> {
    list.map_values(|feedback: RTCPFeedback| (feedback.typ@, feedback.parameter@))
}

impl View for RTCRtpCodecCapability {
    type V = Capability;

    open spec fn view(&self) -> Capability {
        Capability {
            mime_type: self.mime_type@,
            clock_rate: self.clock_rate,
            channels: self.channels,
            sdp_fmtp_line: self.sdp_fmtp_line@,
            rtcp_feedback: feedback_of(self.rtcp_feedback@),
        }
    }
}

impl RTCRtpCodecCapability {
    /// A copy of the codec.
    pub fn copy(&self) -> (capability: RTCRtpCodecCapability)
        ensures
            capability@ == self@,
    {
        let mut rtcp_feedback: Vec<RTCPFeedback> = Vec::new();
        let list = &self.rtcp_feedback;
        let mut i: usize = 0;
        while i < list.len()
            invariant
                i <= list@.len(),
                rtcp_feedback@.len() == i,
                forall|k: int|
                    0 <= k < i ==> (#[trigger] rtcp_feedback@[k]).typ@ == list@[k].typ@
                        && rtcp_feedback@[k].parameter@ == list@[k].parameter@,
            decreases list@.len() - i,
        {
            rtcp_feedback.push(
                RTCPFeedback { typ: list[i].typ.clone(), parameter: list[i].parameter.clone() },
            );
            i = i + 1;
        }
        assert(feedback_of(rtcp_feedback@) =~= feedback_of(list@));
        RTCRtpCodecCapability {
            mime_type: self.mime_type.clone(),
            clock_rate: self.clock_rate,
            channels: self.channels,
            sdp_fmtp_line: self.sdp_fmtp_line.clone(),
            rtcp_feedback,
        }
    }
}

/// A codec with its payload type.
pub struct RTCRtpCodecParameters {
    pub capability: RTCRtpCodecCapability,
    pub payload_type: u8,
}

/// A header extension, and the id of its elements in a packet.
pub struct RTCRtpHeaderExtensionParameters {
    pub uri: String,
    pub id: u8,
}

/// What was agreed on for a track.
pub struct RTCRtpParameters {
    pub header_extensions: Vec<RTCRtpHeaderExtensionParameters>,
    pub codecs: Vec<RTCRtpCodecParameters>,
}

/// What a buffer needs to know of what was agreed on for its track.
pub ghost struct Settings {
    pub mime: Seq<char>,
    pub kind: RTPCodecType,
    /// Whether the codec supports the kinds of feedback.
    pub remb: bool,
    pub twcc: bool,
    pub nack: bool,
    /// The ids of header extensions.
    pub twcc_ext: Option<u8>,
    pub audio_ext: Option<u8>,
}

/// What a buffer needs to know of what was agreed on for its track.
pub struct TrackSettings {
    pub mime: String,
    pub kind: RTPCodecType,
    /// Whether the codec supports the kinds of feedback.
    pub remb: bool,
    pub twcc: bool,
    pub nack: bool,
    /// The ids of header extensions.
    pub twcc_ext: Option<u8>,
    pub audio_ext: Option<u8>,
}

impl View for TrackSettings {
    type V = Settings;

    open spec fn view(&self) -> Settings {
        Settings {
            mime: self.mime@,
            kind: self.kind,
            remb: self.remb,
            twcc: self.twcc,
            nack: self.nack,
            twcc_ext: self.twcc_ext,
            audio_ext: self.audio_ext,
        }
    }
}

/// What a codec is for, by its type in lower case.
pub open spec fn codec_type_of(mime: Seq<char>) -> RTPCodecType {
    if "audio/"@.is_prefix_of(mime) {
        RTPCodecType::Audio
    } else if "video/"@.is_prefix_of(mime) {
        RTPCodecType::Video
    } else {
        RTPCodecType::Unspecified
    }
}

/// The id of the first header extension with the given URI.
pub open spec fn first_id(
    extensions: Seq<RTCRtpHeaderExtensionParameters>,
    uri: Seq<char>,
) -> Option<u8>
    decreases extensions.len(),
{
    if extensions.len() == 0 {
        None
    } else if extensions[0].uri@ == uri {
        Some(extensions[0].id)
    } else {
        first_id(extensions.skip(1), uri)
    }
}

/// The id of the last header extension with the given URI.
pub open spec fn last_id(
    extensions: Seq<RTCRtpHeaderExtensionParameters>,
    uri: Seq<char>,
) -> Option<u8>
    decreases extensions.len(),
{
    if extensions.len() == 0 {
        None
    } else if extensions.last().uri@ == uri {
        Some(extensions.last().id)
    } else {
        last_id(extensions.drop_last(), uri)
    }
}

/// Whether a codec supports a kind of feedback.
pub open spec fn supports(feedback: Seq<RTCPFeedback>, typ: Seq<char>) -> bool {
    exists|i: int| 0 <= i < feedback.len() && (#[trigger] feedback[i]).typ@ == typ
}

fn find_first_id(extensions: &Vec<RTCRtpHeaderExtensionParameters>, uri: &str) -> (res: Option<u8>)
    ensures
        res == first_id(extensions@, uri@),
{
    let mut i: usize = 0;
    assert(extensions@.skip(0) =~= extensions@);
    while i < extensions.len()
        invariant
            i <= extensions@.len(),
            first_id(extensions@, uri@) == first_id(extensions@.skip(i as int), uri@),
        decreases extensions@.len() - i,
    {
        if same(extensions[i].uri.as_str(), uri) {
            return Some(extensions[i].id);
        }
        assert(extensions@.skip(i as int).skip(1) =~= extensions@.skip(i + 1));
        i = i + 1;
    }
    None
}

fn find_last_id(extensions: &Vec<RTCRtpHeaderExtensionParameters>, uri: &str) -> (res: Option<u8>)
    ensures
        res == last_id(extensions@, uri@),
{
    let mut i: usize = extensions.len();
    assert(extensions@.take(i as int) =~= extensions@);
    while i > 0
        invariant
            i <= extensions@.len(),
            last_id(extensions@, uri@) == last_id(extensions@.take(i as int), uri@),
        decreases i,
    {
        assert(extensions@.take(i as int).drop_last() =~= extensions@.take(i - 1));
        i = i - 1;
        if same(extensions[i].uri.as_str(), uri) {
            return Some(extensions[i].id);
        }
    }
    None
}

fn finds_feedback(feedback: &Vec<RTCPFeedback>, typ: &str) -> (res: bool)
    ensures
        res == supports(feedback@, typ@),
{
    let mut i: usize = 0;
    while i < feedback.len()
        invariant
            i <= feedback@.len(),
            forall|k: int| 0 <= k < i ==> (#[trigger] feedback@[k]).typ@ != typ@,
        decreases feedback@.len() - i,
    {
        if same(feedback[i].typ.as_str(), typ) {
            return true;
        }
        i = i + 1;
    }
    false
}

/// What the first codec and the header extensions say.
pub open spec fn settings_of(params: RTCRtpParameters) -> Settings {
    let codec = params.codecs@[0].capability;
    Settings {
        mime: lowercase(codec.mime_type@),
        kind: codec_type_of(lowercase(codec.mime_type@)),
        remb: supports(codec.rtcp_feedback@, TYPE_RTCP_FB_GOOG_REMB@),
        twcc: supports(codec.rtcp_feedback@, TYPE_RTCP_FB_TRANSPORT_CC@),
        nack: supports(codec.rtcp_feedback@, TYPE_RTCP_FB_NACK@),
        twcc_ext: first_id(params.header_extensions@, TRANSPORT_CC_URI@),
        audio_ext: last_id(params.header_extensions@, AUDIO_LEVEL_URI@),
    }
}

/// What a codec is for, by its type in lower case.
pub fn kind_of(mime: &str) -> (kind: RTPCodecType)
    ensures
        kind == codec_type_of(mime@),
{
    if starts_with(mime, "audio/") {
        RTPCodecType::Audio
    } else if starts_with(mime, "video/") {
        RTPCodecType::Video
    } else {
        RTPCodecType::Unspecified
    }
}

/// Reads what the first codec and the header extensions say.
pub fn track_settings(params: &RTCRtpParameters) -> (settings: TrackSettings)
    requires
        params.codecs@.len() > 0,
    ensures
        settings@ == settings_of(*params),
{
    let codec = &params.codecs[0].capability;
    let mime = to_lowercase(codec.mime_type.as_str());
    let kind = kind_of(mime.as_str());
    TrackSettings {
        mime,
        kind,
        remb: finds_feedback(&codec.rtcp_feedback, TYPE_RTCP_FB_GOOG_REMB),
        twcc: finds_feedback(&codec.rtcp_feedback, TYPE_RTCP_FB_TRANSPORT_CC),
        nack: finds_feedback(&codec.rtcp_feedback, TYPE_RTCP_FB_NACK),
        twcc_ext: find_first_id(&params.header_extensions, TRANSPORT_CC_URI),
        audio_ext: find_last_id(&params.header_extensions, AUDIO_LEVEL_URI),
    }
}

/// A codec is for audio or for video by the first part of its type, whatever the second part is.
pub proof fn law_codec_is_for_what_its_type_says(subtype: Seq<char>)
    ensures
        codec_type_of("audio/"@ + subtype) is Audio,
        codec_type_of("video/"@ + subtype) is Video,
        codec_type_of("application/"@ + subtype) is Unspecified,
        codec_type_of(Seq::empty()) is Unspecified,
{
    reveal_strlit("audio/");
    reveal_strlit("video/");
    reveal_strlit("application/");
    let audio = "audio/"@ + subtype;
    let video = "video/"@ + subtype;
    let other = "application/"@ + subtype;
    assert("audio/"@ =~= audio.take(6));
    assert("video/"@ =~= video.take(6));
    assert(video[0] == 'v' && "audio/"@[0] == 'a');
    assert(other[1] == 'p' && "audio/"@[1] == 'u');
    assert(other[0] == 'a' && "video/"@[0] == 'v');
}

/// What is read of the settings is what the first codec and the header extensions offer: lost packets
/// are asked for where it names that kind of feedback, and so on for the other kinds.
pub proof fn law_settings_are_those_of_the_codec(params: RTCRtpParameters)
    requires
        params.codecs@.len() > 0,
    ensures
        ({
            let offered = params.codecs@[0].capability.rtcp_feedback@;
            let settings = settings_of(params);
            &&& settings.nack <==> exists|i: int|
                0 <= i < offered.len() && (#[trigger] offered[i]).typ@ == "nack"@
            &&& settings.remb <==> exists|i: int|
                0 <= i < offered.len() && (#[trigger] offered[i]).typ@ == "goog-remb"@
            &&& settings.twcc <==> exists|i: int|
                0 <= i < offered.len() && (#[trigger] offered[i]).typ@ == "transport-cc"@
            &&& settings.mime == lowercase(params.codecs@[0].capability.mime_type@)
            &&& settings.kind == codec_type_of(settings.mime)
        }),
{
}

/// The id of a header extension is that of one with the right URI. There is none just where no
/// extension has that URI.
pub proof fn law_ids_belong_to_their_extensions(params: RTCRtpParameters)
    requires
        params.codecs@.len() > 0,
    ensures
        ({
            let list = params.header_extensions@;
            let settings = settings_of(params);
            let level = "urn:ietf:params:rtp-hdrext:ssrc-audio-level"@;
            let transport =
                "http://www.ietf.org/id/draft-holmer-rmcat-transport-wide-cc-extensions-01"@;
            &&& settings.audio_ext matches Some(id) ==> exists|i: int|
                0 <= i < list.len() && (#[trigger] list[i]).uri@ == level && list[i].id == id
            &&& settings.audio_ext is None ==> forall|i: int|
                0 <= i < list.len() ==> (#[trigger] list[i]).uri@ != level
            &&& settings.twcc_ext matches Some(id) ==> exists|i: int|
                0 <= i < list.len() && (#[trigger] list[i]).uri@ == transport && list[i].id == id
            &&& settings.twcc_ext is None ==> forall|i: int|
                0 <= i < list.len() ==> (#[trigger] list[i]).uri@ != transport
        }),
{
    lemma_first_id(params.header_extensions@, TRANSPORT_CC_URI@);
    lemma_last_id(params.header_extensions@, AUDIO_LEVEL_URI@);
}

proof fn lemma_first_id(list: Seq<RTCRtpHeaderExtensionParameters>, uri: Seq<char>)
    ensures
        first_id(list, uri) matches Some(id) ==> exists|i: int|
            0 <= i < list.len() && (#[trigger] list[i]).uri@ == uri && list[i].id == id,
        first_id(list, uri) is None ==> forall|i: int|
            0 <= i < list.len() ==> (#[trigger] list[i]).uri@ != uri,
    decreases list.len(),
{
    if list.len() > 0 && list[0].uri@ != uri {
        let rest = list.skip(1);
        lemma_first_id(rest, uri);
        if let Some(id) = first_id(rest, uri) {
            let i = choose|i: int|
                0 <= i < rest.len() && (#[trigger] rest[i]).uri@ == uri && rest[i].id == id;
            assert(list[i + 1] == rest[i]);
        } else {
            assert forall|i: int| 0 <= i < list.len() implies (#[trigger] list[i]).uri@ != uri by {
                if i > 0 {
                    assert(rest[i - 1] == list[i]);
                }
            }
        }
    }
}

proof fn lemma_last_id(list: Seq<RTCRtpHeaderExtensionParameters>, uri: Seq<char>)
    ensures
        last_id(list, uri) matches Some(id) ==> exists|i: int|
            0 <= i < list.len() && (#[trigger] list[i]).uri@ == uri && list[i].id == id,
        last_id(list, uri) is None ==> forall|i: int|
            0 <= i < list.len() ==> (#[trigger] list[i]).uri@ != uri,
    decreases list.len(),
{
    if list.len() > 0 {
        let shorter = list.drop_last();
        lemma_last_id(shorter, uri);
        assert(list[list.len() - 1] == list.last());
        if list.last().uri@ != uri {
            if let Some(id) = last_id(shorter, uri) {
                let i = choose|i: int|
                    0 <= i < shorter.len() && (#[trigger] shorter[i]).uri@ == uri && shorter[i].id
                        == id;
                assert(list[i] == shorter[i]);
            } else {
                assert forall|i: int| 0 <= i < list.len() implies (#[trigger] list[i]).uri@
                    != uri by {
                    if i < shorter.len() {
                        assert(shorter[i] == list[i]);
                    }
                }
            }
        }
    }
}

} // verus!
