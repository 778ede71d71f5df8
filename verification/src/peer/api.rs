use vstd::prelude::*;

use crate::packet::params::{
    codec_type_of, RTPCodecType, AUDIO_LEVEL_URI, TRANSPORT_CC_URI,
};
use crate::rtc::message::RemoteMedia;
use crate::text::{same, views};
use crate::track::downtrack::{DownTrack, DownTrackInternal, SourceDescriptionChunk};
use crate::track::simulcast::layer_of;

verus! {

/// Label of the channel that the server talks to its clients on.
pub const API_CHANNEL_LABEL: &'static str = "System";

/// What is said on a channel once it is open.
pub const GREETING: &'static str = "{\"message\": \"Client should receive this message\"}";

/// Header extension with the marks of frames.
pub const FRAME_MARKING: &'static str = "urn:ietf:params:rtp-hdrext:framemarking";

/// Header extension with the media that a packet belongs to.
pub const SDES_MID_URI: &'static str = "urn:ietf:params:rtp-hdrext:sdes:mid";

/// Header extension with the layer that a packet belongs to.
pub const SDES_RTP_STREAM_ID_URI: &'static str = "urn:ietf:params:rtp-hdrext:sdes:rtp-stream-id";

/// Header extension with the orientation of a video.
pub const VIDEO_ORIENTATION_URI: &'static str = "urn:3gpp:video-orientation";

pub const HIGH_VALUE: &'static str = "high";

pub const MEDIA_VALUE: &'static str = "medium";

pub const LOW_VALUE: &'static str = "low";

pub const MUTED_VALUE: &'static str = "none";

/// The header extensions that are registered for a kind of codec.
pub open spec fn extension_uris(kind: RTPCodecType) -> Seq<Seq<char>> {
    match kind {
        RTPCodecType::Video => seq![
            SDES_MID_URI@,
            SDES_RTP_STREAM_ID_URI@,
            TRANSPORT_CC_URI@,
            VIDEO_ORIENTATION_URI@,
            FRAME_MARKING@,
        ],
        RTPCodecType::Audio => seq![SDES_MID_URI@, SDES_RTP_STREAM_ID_URI@, AUDIO_LEVEL_URI@],
        RTPCodecType::Unspecified => seq![],
    }
}

/// The header extensions to register for a kind of codec, in their order.
pub fn header_extensions(kind: RTPCodecType) -> (uris: Vec<String>)
    ensures
        views(uris@) == extension_uris(kind),
{
    let mut uris: Vec<String> = Vec::new();
    match kind {
        RTPCodecType::Video => {
            uris.push(SDES_MID_URI.to_owned());
            uris.push(SDES_RTP_STREAM_ID_URI.to_owned());
            uris.push(TRANSPORT_CC_URI.to_owned());
            uris.push(VIDEO_ORIENTATION_URI.to_owned());
            uris.push(FRAME_MARKING.to_owned());
        },
        RTPCodecType::Audio => {
            uris.push(SDES_MID_URI.to_owned());
            uris.push(SDES_RTP_STREAM_ID_URI.to_owned());
            uris.push(AUDIO_LEVEL_URI.to_owned());
        },
        RTPCodecType::Unspecified => {},
    }
    assert(views(uris@) =~= extension_uris(kind));
    uris
}

/// The track, muted or not.
pub open spec fn muted(track: DownTrack, val: bool) -> DownTrack {
    DownTrack {
        down_track_local: DownTrackInternal {
            enabled: !val,
            re_sync: track.down_track_local.re_sync || val && track.down_track_local.enabled,
            ..track.down_track_local
        },
        ..track
    }
}

/// The track with its highest temporal layer set, where it can be.
pub open spec fn in_temporal_layer(track: DownTrack, layer: u32) -> DownTrack {
    if track.track_type is SimulcastDownTrack && track.temporal_layer != layer {
        DownTrack { temporal_layer: layer, max_temporal_layer: layer, ..track }
    } else {
        track
    }
}

/// The spatial layer that is asked for by name.
pub open spec fn spatial_layer_named(name: Seq<char>) -> Option<u8> {
    if name == HIGH_VALUE@ {
        Some(2)
    } else if name == MEDIA_VALUE@ {
        Some(1)
    } else if name == LOW_VALUE@ {
        Some(0)
    } else {
        None
    }
}

/// The temporal layer that is asked for by name.
pub open spec fn temporal_layer_named(name: Seq<char>) -> Option<u32> {
    if name == HIGH_VALUE@ {
        Some(3)
    } else if name == MEDIA_VALUE@ {
        Some(2)
    } else if name == LOW_VALUE@ {
        Some(1)
    } else {
        None
    }
}

/// The video track with the quality that is asked for.
pub open spec fn with_quality(track: DownTrack, video: Seq<char>) -> DownTrack {
    match spatial_layer_named(video) {
        Some(layer) => muted(track, false).targeted(layer, true),
        None => if video == MUTED_VALUE@ {
            muted(track, true)
        } else {
            track
        },
    }
}

/// The track as a client wants to receive it.
pub open spec fn as_wanted(track: DownTrack, media: RemoteMedia) -> DownTrack {
    match codec_type_of(track.down_track_local.media_codec.mime_type@) {
        RTPCodecType::Audio => muted(track, !media.audio),
        RTPCodecType::Video => {
            let shown = with_quality(track, media.video@);
            match temporal_layer_named(media.frame_rate@) {
                Some(layer) => in_temporal_layer(shown, layer),
                None => shown,
            }
        },
        RTPCodecType::Unspecified => track,
    }
}

/// Whether a client asks for layers by name, which is not supported.
pub open spec fn names_layers(media: RemoteMedia) -> bool {
    media.layers matches Some(layers) && layers@.len() > 0
}

/// The track after a client chose how to receive its stream.
pub open spec fn chosen(track: DownTrack, media: RemoteMedia) -> DownTrack {
    if names_layers(media) {
        track
    } else {
        as_wanted(track, media)
    }
}

fn find_spatial_layer(name: &str) -> (layer: Option<u8>)
    ensures
        layer == spatial_layer_named(name@),
{
    if same(name, HIGH_VALUE) {
        Some(2)
    } else if same(name, MEDIA_VALUE) {
        Some(1)
    } else if same(name, LOW_VALUE) {
        Some(0)
    } else {
        None
    }
}

fn find_temporal_layer(name: &str) -> (layer: Option<u32>)
    ensures
        layer == temporal_layer_named(name@),
{
    if same(name, HIGH_VALUE) {
        Some(3)
    } else if same(name, MEDIA_VALUE) {
        Some(2)
    } else if same(name, LOW_VALUE) {
        Some(1)
    } else {
        None
    }
}

/// Mutes a track or switches its layers, as a client wants to receive it.
pub fn process_track(remote_media: &RemoteMedia, dt: &mut DownTrack)
    requires
        old(dt).wf(),
    ensures
        final(dt).wf(),
        *final(dt) == if names_layers(*remote_media) {
            *old(dt)
        } else {
            as_wanted(*old(dt), *remote_media)
        },
        *final(dt) == chosen(*old(dt), *remote_media),
{
    if let Some(layers) = &remote_media.layers {
        if layers.len() > 0 {
            return ;
        }
    }
    match dt.kind() {
        RTPCodecType::Audio => dt.mute(!remote_media.audio),
        RTPCodecType::Video => {
            match find_spatial_layer(remote_media.video.as_str()) {
                Some(layer) => {
                    dt.mute(false);
                    let _res = dt.set_target_spatial_layer(layer, true);
                },
                None => {
                    if same(remote_media.video.as_str(), MUTED_VALUE) {
                        dt.mute(true);
                    }
                },
            }
            if let Some(layer) = find_temporal_layer(remote_media.frame_rate.as_str()) {
                dt.switch_temporal_layer(layer, true);
            }
        },
        RTPCodecType::Unspecified => {},
    }
}

/// Mutes the tracks of a stream or switches their layers, as a client wants to receive them.
pub fn process_remote_media(remote_media: &RemoteMedia, down_tracks: &mut Vec<DownTrack>)
    requires
        forall|i: int| 0 <= i < old(down_tracks)@.len() ==> (#[trigger] old(down_tracks)@[i]).wf(),
    ensures
        final(down_tracks)@ == if names_layers(*remote_media) {
            old(down_tracks)@
        } else {
            old(down_tracks)@.map_values(|track: DownTrack| as_wanted(track, *remote_media))
        },
        forall|i: int|
            0 <= i < final(down_tracks)@.len() ==> (#[trigger] final(down_tracks)@[i]).wf(),
        final(down_tracks)@.len() == old(down_tracks)@.len(),
        forall|i: int|
            0 <= i < old(down_tracks)@.len() ==> final(down_tracks)@[i] == chosen(
                #[trigger] old(down_tracks)@[i],
                *remote_media,
            ),
{
    let ghost before = down_tracks@;
    let ghost wanted = |track: DownTrack|
        if names_layers(*remote_media) {
            track
        } else {
            as_wanted(track, *remote_media)
        };
    let mut i: usize = 0;
    while i < down_tracks.len()
        invariant
            wanted == (|track: DownTrack|
                if names_layers(*remote_media) {
                    track
                } else {
                    as_wanted(track, *remote_media)
                }),
            i <= before.len() == down_tracks@.len(),
            forall|k: int| 0 <= k < before.len() ==> (#[trigger] down_tracks@[k]).wf(),
            forall|k: int| 0 <= k < i ==> down_tracks@[k] == wanted(#[trigger] before[k]),
            forall|k: int| i <= k < before.len() ==> down_tracks@[k] == before[k],
        decreases before.len() - i,
    {
        process_track(remote_media, &mut down_tracks[i]);
        i = i + 1;
    }
    proof {
        if names_layers(*remote_media) {
            assert(down_tracks@ =~= before);
        } else {
            assert(down_tracks@ =~= before.map_values(
                |track: DownTrack| as_wanted(track, *remote_media),
            ));
        }
    }
}

/// The sources of the tracks that are bound, each with the name of the peer it is for.
pub open spec fn sources_of(tracks: Seq<&DownTrack>) -> Seq<(u32, Seq<char>)>
    decreases tracks.len(),
{
    if tracks.len() == 0 {
        seq![]
    } else {
        let before = sources_of(tracks.drop_last());
        let track = tracks.last();
        if track.down_track_local.bound {
            before.push((track.down_track_local.ssrc, track.cname@))
        } else {
            before
        }
    }
}

/// What a chunk says.
pub open spec fn chunk_of(chunk: SourceDescriptionChunk) -> (u32, Seq<char>) {
    (chunk.source, chunk.cname@)
}

/// The source description to send for the tracks of a stream, if there is one.
pub fn describe_sources(tracks: &Vec<&DownTrack>) -> (res: Option<Vec<SourceDescriptionChunk>>)
    ensures
        match res {
            None => sources_of(tracks@).len() == 0,
            Some(sds) => sds@.map_values(|chunk: SourceDescriptionChunk| chunk_of(chunk))
                == sources_of(tracks@) && sds@.len() > 0,
        },
{
    let mut sds: Vec<SourceDescriptionChunk> = Vec::new();
    let ghost read = |chunk: SourceDescriptionChunk| chunk_of(chunk);
    let mut i: usize = 0;
    assert(tracks@.take(0) =~= Seq::<&DownTrack>::empty());
    assert(sds@.map_values(read) =~= sources_of(tracks@.take(0)));
    while i < tracks.len()
        invariant
            read == (|chunk: SourceDescriptionChunk| chunk_of(chunk)),
            i <= tracks@.len(),
            sds@.map_values(read) == sources_of(tracks@.take(i as int)),
        decreases tracks@.len() - i,
    {
        let ghost before = sds@;
        let dt: &DownTrack = tracks[i];
        assert(tracks@.take(i + 1).drop_last() =~= tracks@.take(i as int));
        if dt.bound() {
            let mut dcs = dt.create_source_description_chunks();
            let ghost chunk = dcs@[0];
            sds.append(&mut dcs);
            assert(sds@ =~= before.push(chunk));
            assert(sds@.map_values(read) =~= before.map_values(read).push(chunk_of(chunk)));
        }
        i = i + 1;
    }
    assert(tracks@.take(i as int) =~= tracks@);
    assert(sds@.map_values(read).len() == sds@.len());
    if sds.len() == 0 {
        None
    } else {
        Some(sds)
    }
}


/// Whether the media is that of a video track that goes out in several layers.
pub open spec fn is_layered_video(track: DownTrack) -> bool {
    &&& track.track_type is SimulcastDownTrack
    &&& codec_type_of(track.down_track_local.media_codec.mime_type@) is Video
}

/// The quality that a client asks for is the resolution of the same rank: the low one is that of the
/// quarter of the resolution, the medium one that of half of it, and the high one the full
/// resolution. The track is told to switch there, unless it is there already, and is not muted.
pub proof fn law_quality_is_the_resolution_of_its_rank(track: DownTrack, media: RemoteMedia)
    requires
        is_layered_video(track),
        media.layers is None,
    ensures
        ({
            let after = chosen(track, media);
            let low = layer_of("q"@);
            let medium = layer_of("h"@);
            let high = layer_of("f"@);
            &&& 0 <= low < medium < high < 3
            &&& media.video@ == "low"@ && track.current_spatial_layer != low
                ==> after.target_spatial_layer == low
            &&& media.video@ == "medium"@ && track.current_spatial_layer != medium
                ==> after.target_spatial_layer == medium
            &&& media.video@ == "high"@ && track.current_spatial_layer != high
                ==> after.target_spatial_layer == high
            &&& media.video@ == "low"@ || media.video@ == "medium"@ || media.video@ == "high"@ ==> {
                &&& after.down_track_local.enabled
                &&& after.max_spatial_layer >= after.target_spatial_layer
                    || after.target_spatial_layer == track.target_spatial_layer
                &&& after.max_spatial_layer >= track.max_spatial_layer
            }
            &&& media.video@ == "none"@ ==> !after.down_track_local.enabled
                && after.target_spatial_layer == track.target_spatial_layer
        }),
{
    lemma_values_differ();
    lemma_resolutions_differ();
}

/// A client that asks for a higher quality is never sent to a lower layer than one that asks for a
/// lower quality, and the same holds of the frame rate.
pub proof fn law_more_quality_is_a_higher_layer(
    track: DownTrack,
    less: RemoteMedia,
    more: RemoteMedia,
)
    requires
        is_layered_video(track),
        less.layers is None,
        more.layers is None,
        less.frame_rate@ == more.frame_rate@,
        less.video@ == "low"@ && (more.video@ == "medium"@ || more.video@ == "high"@) || less.video@
            == "medium"@ && more.video@ == "high"@,
        // The track is on its way to neither of them
        track.current_spatial_layer >= 3,
    ensures
        chosen(track, less).target_spatial_layer < chosen(track, more).target_spatial_layer,
{
    lemma_values_differ();
}

/// The more frames a client asks for, the higher is the temporal layer, which becomes the highest one
/// of the track. Frame rates that are not known leave it alone.
pub proof fn law_more_frames_are_a_higher_layer(
    track: DownTrack,
    low: RemoteMedia,
    medium: RemoteMedia,
    high: RemoteMedia,
)
    requires
        is_layered_video(track),
        low.layers is None && medium.layers is None && high.layers is None,
        low.frame_rate@ == "low"@,
        medium.frame_rate@ == "medium"@,
        high.frame_rate@ == "high"@,
    ensures
        0 < chosen(track, low).temporal_layer < chosen(track, medium).temporal_layer < chosen(
            track,
            high,
        ).temporal_layer <= 3,
        track.temporal_layer != chosen(track, low).temporal_layer ==> chosen(
            track,
            low,
        ).max_temporal_layer == chosen(track, low).temporal_layer,
        track.temporal_layer != chosen(track, high).temporal_layer ==> chosen(
            track,
            high,
        ).max_temporal_layer == chosen(track, high).temporal_layer,
{
    lemma_values_differ();
}

/// Whether a client hears a track is up to what it wants of the audio, and whether it sees one is up
/// to what it wants of the video.
pub proof fn law_audio_and_video_are_muted_apart(track: DownTrack, media: RemoteMedia)
    requires
        media.layers is None,
    ensures
        ({
            let after = chosen(track, media);
            let kind = codec_type_of(track.down_track_local.media_codec.mime_type@);
            &&& kind is Audio ==> after.down_track_local.enabled == media.audio
                && after.target_spatial_layer == track.target_spatial_layer && after.temporal_layer
                == track.temporal_layer
            &&& kind is Video && media.video@ == "none"@ ==> !after.down_track_local.enabled
            &&& kind is Video && media.video@ == "high"@ ==> after.down_track_local.enabled
            &&& kind is Video && media.video@ == "medium"@ ==> after.down_track_local.enabled
            &&& kind is Video && media.video@ == "low"@ ==> after.down_track_local.enabled
            &&& kind is Unspecified ==> after == track
            // A simple track has no layers to choose from
            &&& track.track_type is SimpleDownTrack ==> after.target_spatial_layer
                == track.target_spatial_layer && after.temporal_layer == track.temporal_layer
        }),
{
    lemma_values_differ();
}

/// A track that was muted is out of sync when it is shown again, so that it starts with a key frame.
/// A choice that changes nothing leaves a track in sync.
pub proof fn law_muted_track_starts_over(
    track: DownTrack,
    mutes: RemoteMedia,
    shows: RemoteMedia,
)
    requires
        mutes.layers is None,
        shows.layers is None,
        track.down_track_local.enabled,
        codec_type_of(track.down_track_local.media_codec.mime_type@) is Video,
        mutes.video@ == "none"@,
        shows.video@ == "high"@ || shows.video@ == "medium"@ || shows.video@ == "low"@,
    ensures
        chosen(chosen(track, mutes), shows).down_track_local.enabled,
        chosen(chosen(track, mutes), shows).down_track_local.re_sync,
        chosen(track, shows).down_track_local.re_sync == track.down_track_local.re_sync,
{
    lemma_values_differ();
}

/// What a client chooses changes what it receives, but not the track itself.
pub proof fn law_choice_keeps_the_track(track: DownTrack, media: RemoteMedia)
    ensures
        ({
            let after = chosen(track, media);
            &&& after.is_same(track)
            &&& after.current_spatial_layer == track.current_spatial_layer
            &&& after.track_type == track.track_type
            &&& after.sn_offset == track.sn_offset
            &&& after.ts_offset == track.ts_offset
            &&& after.last_sn == track.last_sn
            &&& after.last_ts == track.last_ts
            &&& after.simulcast == track.simulcast
            &&& after.down_track_local.bound == track.down_track_local.bound
            &&& after.down_track_local.ssrc == track.down_track_local.ssrc
            &&& after.down_track_local.last_ssrc == track.down_track_local.last_ssrc
            &&& media.layers matches Some(layers) ==> (layers@.len() > 0 ==> after == track)
        }),
{
}

proof fn lemma_values_differ()
    ensures
        "high"@ != "medium"@,
        "high"@ != "low"@,
        "high"@ != "none"@,
        "medium"@ != "low"@,
        "medium"@ != "none"@,
        "low"@ != "none"@,
{
    reveal_strlit("high");
    reveal_strlit("medium");
    reveal_strlit("low");
    reveal_strlit("none");
    assert("high"@[0] == 'h' && "none"@[0] == 'n' && "low"@.len() == 3 && "medium"@.len() == 6);
}

proof fn lemma_resolutions_differ()
    ensures
        "q"@ != "h"@,
        "q"@ != "f"@,
        "h"@ != "f"@,
{
    reveal_strlit("q");
    reveal_strlit("h");
    reveal_strlit("f");
    assert("q"@[0] == 'q' && "h"@[0] == 'h' && "f"@[0] == 'f');
}

/// A source description names just the tracks that are bound, each once and by its own SSRC, in the
/// order of the tracks.
pub proof fn law_bound_tracks_are_described(tracks: Seq<&DownTrack>)
    ensures
        sources_of(tracks).len() <= tracks.len(),
        forall|i: int|
            0 <= i < tracks.len() && (#[trigger] tracks[i]).down_track_local.bound ==> sources_of(
                tracks,
            ).contains((tracks[i].down_track_local.ssrc, tracks[i].cname@)),
        (forall|i: int| 0 <= i < tracks.len() ==> (#[trigger] tracks[i]).down_track_local.bound)
            ==> sources_of(tracks) == tracks.map_values(
            |track: &DownTrack| (track.down_track_local.ssrc, track.cname@),
        ),
        (forall|i: int| 0 <= i < tracks.len() ==> !(#[trigger] tracks[i]).down_track_local.bound)
            ==> sources_of(tracks).len() == 0,
    decreases tracks.len(),
{
    if tracks.len() > 0 {
        let shorter = tracks.drop_last();
        law_bound_tracks_are_described(shorter);
        let before = sources_of(shorter);
        let all = sources_of(tracks);
        let last = tracks.last();
        assert forall|i: int|
            0 <= i < tracks.len() && (#[trigger] tracks[i]).down_track_local.bound implies all.contains(
        (tracks[i].down_track_local.ssrc, tracks[i].cname@)) by {
            let source = (tracks[i].down_track_local.ssrc, tracks[i].cname@);
            if i < shorter.len() {
                assert(shorter[i] == tracks[i]);
                let at = choose|at: int| 0 <= at < before.len() && before[at] == source;
                assert(all[at] == source);
            } else {
                assert(all[all.len() - 1] == source);
            }
        }
        if forall|i: int| 0 <= i < tracks.len() ==> (#[trigger] tracks[i]).down_track_local.bound {
            assert forall|i: int| 0 <= i < shorter.len() implies (
            #[trigger] shorter[i]).down_track_local.bound by {
                assert(shorter[i] == tracks[i]);
            }
            assert(last.down_track_local.bound) by {
                assert(tracks[tracks.len() - 1].down_track_local.bound);
            }
            assert(all =~= tracks.map_values(
                |track: &DownTrack| (track.down_track_local.ssrc, track.cname@),
            ));
        }
        if forall|i: int| 0 <= i < tracks.len() ==> !(#[trigger] tracks[i]).down_track_local.bound {
            assert forall|i: int| 0 <= i < shorter.len() implies !(
            #[trigger] shorter[i]).down_track_local.bound by {
                assert(shorter[i] == tracks[i]);
            }
            assert(!tracks[tracks.len() - 1].down_track_local.bound);
        }
    } else {
        assert(sources_of(tracks) =~= tracks.map_values(
            |track: &DownTrack| (track.down_track_local.ssrc, track.cname@),
        ));
    }
}

/// A list of layers without a layer in it is no list: the choice is as without one.
pub proof fn law_empty_list_of_layers_is_none(
    track: DownTrack,
    media: RemoteMedia,
    plain: RemoteMedia,
)
    requires
        media.layers matches Some(layers) && layers@.len() == 0,
        plain == (RemoteMedia { layers: None, ..media }),
    ensures
        chosen(track, media) == chosen(track, plain),
{
}

} // verus!
