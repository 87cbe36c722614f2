//! The WebRTC API object with its one codec.
use vstd::prelude::*;
use webrtc::api::interceptor_registry::register_default_interceptors;
use webrtc::api::media_engine::MediaEngine;
use webrtc::api::{APIBuilder, API};
use webrtc::interceptor::registry::Registry;
use webrtc::rtp_transceiver::rtp_codec::{
    RTCRtpCodecCapability, RTCRtpCodecParameters, RTPCodecType,
};

verus! {

#[verifier::external_type_specification]
#[verifier::external_body]
pub struct ExMediaEngine(MediaEngine);

#[verifier::external_type_specification]
#[verifier::external_body]
pub struct ExRegistry(Registry);

#[verifier::external_type_specification]
#[verifier::external_body]
pub struct ExApi(API);

#[verifier::external_type_specification]
#[verifier::external_body]
pub struct ExWebrtcError(webrtc::Error);

/// A video codec as it is offered to peers.
#[derive(Debug)]
pub struct VideoCodec {
    pub mime_type: String,
    pub clock_rate: u32,
    pub channels: u16,
    pub sdp_fmtp_line: String,
    pub payload_type: u8,
}

/// A codec's MIME type, clock rate, channels, format parameters and payload
/// type.
pub open spec fn codec_parts(codec: VideoCodec) -> (Seq<char>, u32, u16, Seq<char>, u8) {
    (
        codec.mime_type@,
        codec.clock_rate,
        codec.channels,
        codec.sdp_fmtp_line@,
        codec.payload_type,
    )
}

/// H.264 at a 90 kHz clock, payload type 102. Profile-level-id `42e028`:
///   - `42` = Baseline profile
///   - `e0` = constraint flags (constraint_set0/1/2 all set, per Baseline spec)
///   - `28` = level 4.0 (hex 0x28 = decimal 40), up to 1920x1080@30fps
pub open spec fn h264_parts() -> (Seq<char>, u32, u16, Seq<char>, u8) {
    (
        "video/H264"@,
        90000,
        0,
        "level-asymmetry-allowed=1;packetization-mode=1;profile-level-id=42e028"@,
        102,
    )
}

/// The video codecs that a media engine holds, without their RTCP feedback.
pub uninterp spec fn engine_codecs(engine: MediaEngine) -> Seq<
    (Seq<char>, u32, u16, Seq<char>, u8),
>;

/// The RTCP feedback of each video codec that a media engine holds: types and
/// parameters, in order.
pub uninterp spec fn engine_feedback(engine: MediaEngine) -> Seq<Seq<(Seq<char>, Seq<char>)>>;

/// The MIME types of the audio codecs that a media engine holds.
pub uninterp spec fn engine_audio_codecs(engine: MediaEngine) -> Seq<Seq<char>>;

/// The URIs of the header extensions that a media engine holds.
pub uninterp spec fn engine_extensions(engine: MediaEngine) -> Seq<Seq<char>>;

/// The interceptors that a registry builds, in order.
pub uninterp spec fn registry_interceptors(registry: Registry) -> Seq<InterceptorKind>;

/// The video codecs that an API object holds, without their RTCP feedback.
pub uninterp spec fn api_codecs(api: API) -> Seq<(Seq<char>, u32, u16, Seq<char>, u8)>;

/// The RTCP feedback of each video codec that an API object holds.
pub uninterp spec fn api_feedback(api: API) -> Seq<Seq<(Seq<char>, Seq<char>)>>;

/// The MIME types of the audio codecs that an API object holds.
pub uninterp spec fn api_audio_codecs(api: API) -> Seq<Seq<char>>;

/// The URIs of the header extensions that an API object holds.
pub uninterp spec fn api_extensions(api: API) -> Seq<Seq<char>>;

/// The interceptors that an API object builds for each connection, in order.
pub uninterp spec fn api_interceptors(api: API) -> Seq<InterceptorKind>;

/// The kinds of interceptors that are there by default.
pub enum InterceptorKind {
    /// Answers negative acknowledgements by sending again.
    NackResponder,
    /// Asks for lost packets by negative acknowledgements.
    NackGenerator,
    ReceiverReport,
    SenderReport,
    /// Reports on transport-wide congestion.
    TwccReceiver,
}

/// The default interceptors.
pub open spec fn default_interceptors() -> Seq<InterceptorKind> {
    seq![
        InterceptorKind::NackResponder,
        InterceptorKind::NackGenerator,
        InterceptorKind::ReceiverReport,
        InterceptorKind::SenderReport,
        InterceptorKind::TwccReceiver,
    ]
}

/// The RTCP feedback that the default interceptors rely on.
pub open spec fn default_feedback() -> Seq<(Seq<char>, Seq<char>)> {
    seq![("nack"@, ""@), ("nack"@, "pli"@), ("transport-cc"@, ""@)]
}

/// The header extension that the default interceptors rely on.
pub open spec fn transport_cc_uri() -> Seq<char> {
    "http://www.ietf.org/id/draft-holmer-rmcat-transport-wide-cc-extensions-01"@
}

/// No codec in the list has this one's MIME type and payload type.
pub open spec fn is_new_codec(
    codecs: Seq<(Seq<char>, u32, u16, Seq<char>, u8)>,
    codec: (Seq<char>, u32, u16, Seq<char>, u8),
) -> bool {
    forall|i: int|
        0 <= i < codecs.len() ==> !((#[trigger] codecs[i]).0 == codec.0 && codecs[i].4 == codec.4)
}

/// Calls `MediaEngine::default`: an engine without codecs, video or audio, or
/// extensions.
#[verifier::external_body]
fn new_engine() -> (engine: MediaEngine)
    ensures
        engine_codecs(engine).len() == 0,
        engine_feedback(engine).len() == 0,
        engine_audio_codecs(engine).len() == 0,
        engine_extensions(engine).len() == 0,
{
    MediaEngine::default()
}

/// Calls `MediaEngine::register_codec` for a video codec without RTCP
/// feedback. It always succeeds, and appends the codec unless one with the
/// same MIME type and payload type is there already. It leaves the audio codecs
/// and the extensions as they are. (It stamps the codec with
/// the system time and relies on a clock that is past 1970.)
#[verifier::external_body]
fn register_video_codec(engine: &mut MediaEngine, codec: VideoCodec) -> (registered: Result<
    (),
    webrtc::Error,
>)
    ensures
        registered is Ok,
        engine_codecs(*final(engine)) == (if is_new_codec(
            engine_codecs(*old(engine)),
            codec_parts(codec),
        ) {
            engine_codecs(*old(engine)).push(codec_parts(codec))
        } else {
            engine_codecs(*old(engine))
        }),
        engine_feedback(*final(engine)) == (if is_new_codec(
            engine_codecs(*old(engine)),
            codec_parts(codec),
        ) {
            engine_feedback(*old(engine)).push(Seq::empty())
        } else {
            engine_feedback(*old(engine))
        }),
        engine_audio_codecs(*final(engine)) == engine_audio_codecs(*old(engine)),
        engine_extensions(*final(engine)) == engine_extensions(*old(engine)),
{
    let capability = RTCRtpCodecCapability {
        mime_type: codec.mime_type,
        clock_rate: codec.clock_rate,
        channels: codec.channels,
        sdp_fmtp_line: codec.sdp_fmtp_line,
        rtcp_feedback: vec![],
    };
    let payload_type = codec.payload_type;
    let parameters = RTCRtpCodecParameters { capability, payload_type, ..Default::default() };
    engine.register_codec(parameters, RTPCodecType::Video)
}

/// Calls `Registry::new`: a registry without interceptors.
#[verifier::external_body]
fn new_registry() -> (registry: Registry)
    ensures
        registry_interceptors(registry).len() == 0,
{
    Registry::new()
}

/// Calls `register_default_interceptors`. It appends the default interceptors to
/// the registry; on the engine it appends their RTCP feedback to every video
/// codec and adds a header extension, but no codec, video or audio. On an engine
/// without extensions it succeeds.
#[verifier::external_body]
fn add_default_interceptors(registry: Registry, engine: &mut MediaEngine) -> (extended: Result<
    Registry,
    webrtc::Error,
>)
    ensures
        engine_codecs(*final(engine)) == engine_codecs(*old(engine)),
        engine_audio_codecs(*final(engine)) == engine_audio_codecs(*old(engine)),
        engine_extensions(*old(engine)).len() == 0 ==> extended is Ok && engine_extensions(
            *final(engine),
        ) == seq![transport_cc_uri()],
        extended matches Ok(r) ==> registry_interceptors(r) == registry_interceptors(registry)
            + default_interceptors() && engine_feedback(*final(engine)) == engine_feedback(
            *old(engine),
        ).map_values(|f: Seq<(Seq<char>, Seq<char>)>| f + default_feedback()),
{
    register_default_interceptors(registry, engine)
}

/// Calls `APIBuilder::build` on a builder with this engine and registry: the
/// API object holds the engine's codecs and extensions and the registry's
/// interceptors.
#[verifier::external_body]
fn assemble(engine: MediaEngine, registry: Registry) -> (api: API)
    ensures
        api_codecs(api) == engine_codecs(engine),
        api_feedback(api) == engine_feedback(engine),
        api_audio_codecs(api) == engine_audio_codecs(engine),
        api_extensions(api) == engine_extensions(engine),
        api_interceptors(api) == registry_interceptors(registry),
{
    APIBuilder::new().with_media_engine(engine).with_interceptor_registry(registry).build()
}

/// The H.264 codec that every peer is offered.
pub fn h264_codec() -> (codec: VideoCodec)
    ensures
        codec_parts(codec) == h264_parts(),
        codec.mime_type@ == "video/H264"@,
        codec.clock_rate == 90000,
        codec.channels == 0,
        codec.sdp_fmtp_line@
            == "level-asymmetry-allowed=1;packetization-mode=1;profile-level-id=42e028"@,
        codec.payload_type == 102,
{
    VideoCodec {
        mime_type: "video/H264".to_owned(),
        clock_rate: 90000,
        channels: 0,
        sdp_fmtp_line:
            "level-asymmetry-allowed=1;packetization-mode=1;profile-level-id=42e028".to_owned(),
        payload_type: 102,
    }
}

/// Why no API object could be built.
#[derive(Clone, Copy, Debug, PartialEq, Eq, Structural)]
pub enum ApiError {
    CodecRefused,
    InterceptorsRefused,
}

/// Builds the WebRTC API with H.264 as its only codec, no audio codec, and the
/// default interceptors with what they rely on. Created once and shared across
/// all peer connections.
pub fn build_api() -> (built: Result<API, ApiError>)
    ensures
        built is Ok,
        built matches Ok(api) ==> {
            &&& api_codecs(api) == seq![h264_parts()]
            &&& api_codecs(api) == seq![
                (
                    "video/H264"@,
                    90000u32,
                    0u16,
                    "level-asymmetry-allowed=1;packetization-mode=1;profile-level-id=42e028"@,
                    102u8,
                ),
            ]
            &&& api_audio_codecs(api).len() == 0
            &&& api_feedback(api) == seq![default_feedback()]
            &&& api_extensions(api) == seq![transport_cc_uri()]
            &&& api_interceptors(api) == default_interceptors()
        },
{
    let mut engine = new_engine();
    if register_video_codec(&mut engine, h264_codec()).is_err() {
        return Err(ApiError::CodecRefused);
    }
    match add_default_interceptors(new_registry(), &mut engine) {
        Ok(registry) => {
            assert(engine_codecs(engine) == seq![h264_parts()]);
            assert(engine_feedback(engine)[0] == default_feedback());
            assert(engine_feedback(engine) == seq![default_feedback()]);
            assert(registry_interceptors(registry) == default_interceptors());
            Ok(assemble(engine, registry))
        },
        Err(_) => Err(ApiError::InterceptorsRefused),
    }
}

} // verus!
