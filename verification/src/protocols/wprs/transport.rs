use crate::models::surface::WlSurfaceId;
use crate::protocols::wprs::capabilities::{CpuFeatures, GpuFeatures};
use crate::utils::ieee::F32;
use vstd::prelude::*;

pub use crate::protocols::wprs::frame_codecs::{
    decode_jpeg_to_bgra, decode_png_to_bgra, encode_jpeg_from_bgra,
    encode_jpeg_from_bgra_with_quality, encode_png_from_bgra,
};

verus! {

/// User preferences for transport tuning.
#[derive(Debug, Clone, Copy, PartialEq, Eq, Structural)]
pub struct TransportPreferences {
    pub usage_goal: Option<UsageGoal>,
    /// Optional drop tolerance hint for quality-of-service decisions.
    pub drop_tolerance: Option<DropTolerance>,
    /// Optional retransmit policy hint for quality-of-service decisions.
    pub retransmit_policy: Option<RetransmitPolicy>,
    /// How the server should select and update transport settings.
    pub selection_mode: SelectionMode,
    /// Explicit codec selection used when selection_mode is Manual.
    pub manual_codec: Option<TransportCodec>,
    /// Optional max bitrate cap, in kilobits/sec.
    pub max_bitrate_kbps: Option<u32>,
    /// Optional max RTT hint, in milliseconds.
    pub max_rtt_ms: Option<u32>,
    /// Relative preference weights (0..=100): hints for when trade-offs are needed.
    pub latency_weight: u8,
    pub bandwidth_weight: u8,
    pub cpu_weight: u8,
    pub clarity_weight: u8,
}

#[derive(Debug, Clone, Copy, PartialEq, Eq, Structural)]
pub enum UsageGoal {
    /// Maximize bandwidth utilization and minimize latency; allow drops and lossiness.
    Gaming,
    /// Maximize clarity while tolerating drops; avoid lossy codecs when possible.
    Office,
    /// Maximize clarity with compression; avoid drops and lossy codecs when possible.
    Media,
}

#[derive(Debug, Clone, Copy, PartialEq, Eq, Structural)]
pub enum DropTolerance {
    Allow,
    Avoid,
}

#[derive(Debug, Clone, Copy, PartialEq, Eq, Structural)]
pub enum RetransmitPolicy {
    Allow,
    Avoid,
}

#[derive(Debug, Clone, Copy, PartialEq, Eq, Structural)]
pub enum SelectionMode {
    /// Manual selection: ignore heuristics and use the configured codec.
    Manual,
    /// Static selection: use heuristics once without runtime adjustments.
    Static,
    /// Dynamic selection: allow runtime adjustments.
    Dynamic,
}

pub open spec fn default_preferences() -> TransportPreferences {
    TransportPreferences {
        usage_goal: None,
        drop_tolerance: None,
        retransmit_policy: None,
        selection_mode: SelectionMode::Dynamic,
        manual_codec: None,
        max_bitrate_kbps: None,
        max_rtt_ms: None,
        latency_weight: 25,
        bandwidth_weight: 25,
        cpu_weight: 25,
        clarity_weight: 25,
    }
}

impl Default for TransportPreferences {
    fn default() -> (r: Self)
        ensures
            r == default_preferences(),
    {
        TransportPreferences {
            usage_goal: None,
            drop_tolerance: None,
            retransmit_policy: None,
            selection_mode: SelectionMode::Dynamic,
            manual_codec: None,
            max_bitrate_kbps: None,
            max_rtt_ms: None,
            latency_weight: 25,
            bandwidth_weight: 25,
            cpu_weight: 25,
            clarity_weight: 25,
        }
    }
}

#[derive(Debug, Clone, Copy, PartialEq, Eq, Structural)]
pub enum TransportCodec {
    /// Frame payloads are sharded (split into independently-transferred chunks)
    /// and optionally zstd-compressed.
    ShardedZstd { level: i32 },
    /// Frame payloads are sharded but never compressed (bandwidth-heavy, CPU-light).
    ShardedRaw,
    /// Frame payloads are sharded and LZ4-compressed (low CPU, moderate compression).
    ShardedLz4,
    /// Frame payloads are H.264 bitstreams (requires H.264 support).
    H264,
    /// Frame payloads are PNG image bytes.
    Png,
    /// Frame payloads are JPEG image bytes.
    Jpeg,
}

impl Default for TransportCodec {
    fn default() -> (r: Self)
        ensures
            r == (TransportCodec::ShardedZstd { level: 1 }),
    {
        TransportCodec::ShardedZstd { level: 1 }
    }
}

#[derive(Debug, Clone, Copy, PartialEq, Eq, Structural)]
pub struct BufferPatchConfig {
    pub enabled: bool,
    /// Tile size used for dirty detection (in pixels).
    pub tile_px: u32,
    /// If more than this fraction of tiles changed, send a full frame instead of a patch.
    pub full_frame_threshold: F32,
}

/// The bits of 0.6, the default threshold.
pub const DEFAULT_FULL_FRAME_THRESHOLD: u32 = 0x3F19_999A;

pub open spec fn default_buffer_patches() -> BufferPatchConfig {
    BufferPatchConfig {
        enabled: false,
        tile_px: 64,
        full_frame_threshold: F32 { bits: DEFAULT_FULL_FRAME_THRESHOLD },
    }
}

impl Default for BufferPatchConfig {
    fn default() -> (r: Self)
        ensures
            r == default_buffer_patches(),
    {
        BufferPatchConfig {
            enabled: false,
            tile_px: 64,
            full_frame_threshold: F32 { bits: DEFAULT_FULL_FRAME_THRESHOLD },
        }
    }
}

#[derive(Debug, Clone, Copy, PartialEq, Eq, Structural)]
pub struct TransportConfig {
    pub codec: TransportCodec,
    pub buffer_patches: BufferPatchConfig,
    /// Optional server-side frame rate cap.
    pub max_fps: Option<u32>,
    /// Optional negotiated JPEG quality (1..=100).
    pub jpeg_quality: Option<u8>,
    /// Optional negotiated H.264 target bitrate in kbps.
    pub h264_bitrate_kbps: Option<u32>,
}

#[derive(Debug, Clone, Copy, PartialEq, Eq, Structural)]
pub enum TransportScope {
    Global,
    Surface(WlSurfaceId),
}

pub open spec fn default_config() -> TransportConfig {
    TransportConfig {
        codec: TransportCodec::ShardedZstd { level: 1 },
        buffer_patches: default_buffer_patches(),
        max_fps: None,
        jpeg_quality: None,
        h264_bitrate_kbps: None,
    }
}

impl Default for TransportConfig {
    fn default() -> (r: Self)
        ensures
            r == default_config(),
    {
        TransportConfig {
            codec: TransportCodec::default(),
            buffer_patches: BufferPatchConfig::default(),
            max_fps: None,
            jpeg_quality: None,
            h264_bitrate_kbps: None,
        }
    }
}

#[derive(Debug)]
pub struct ClientHello {
    pub supported_codecs: Vec<TransportCodec>,
    pub supports_buffer_patches: bool,
    pub cpu: CpuFeatures,
    pub gpu: GpuFeatures,
    pub preferences: TransportPreferences,
}

impl ClientHello {
    /// The codecs every client decodes, then H.264 where `video_h264` says that this one can.
    pub fn supported(video_h264: bool) -> (r: Self)
        ensures
            r.supported_codecs@ == supported_codecs(video_h264),
            !r.supports_buffer_patches,
            r.cpu == (CpuFeatures { avx2: false, neon: false }),
            !r.gpu.has_gpu_rendering,
            !r.gpu.has_hw_video_decode,
            r.gpu.hw_decode_codecs@.len() == 0,
            r.preferences == default_preferences(),
    {
        let mut supported_codecs: Vec<TransportCodec> = Vec::new();
        supported_codecs.push(TransportCodec::default());
        supported_codecs.push(TransportCodec::ShardedLz4);
        supported_codecs.push(TransportCodec::ShardedRaw);
        supported_codecs.push(TransportCodec::Png);
        supported_codecs.push(TransportCodec::Jpeg);
        if video_h264 {
            supported_codecs.push(TransportCodec::H264);
        }
        assert(supported_codecs@ =~= self::supported_codecs(video_h264));
        ClientHello {
            supported_codecs,
            supports_buffer_patches: false,
            cpu: CpuFeatures::default(),
            gpu: GpuFeatures::default(),
            preferences: TransportPreferences::default(),
        }
    }
}

pub open spec fn supported_codecs(video_h264: bool) -> Seq<TransportCodec> {
    let common = seq![
        TransportCodec::ShardedZstd { level: 1 },
        TransportCodec::ShardedLz4,
        TransportCodec::ShardedRaw,
        TransportCodec::Png,
        TransportCodec::Jpeg,
    ];
    if video_h264 {
        common.push(TransportCodec::H264)
    } else {
        common
    }
}

impl Default for ClientHello {
    fn default() -> (r: Self)
        ensures
            r.supported_codecs@ == supported_codecs(false),
            !r.supports_buffer_patches,
            r.cpu == (CpuFeatures { avx2: false, neon: false }),
            !r.gpu.has_gpu_rendering,
            !r.gpu.has_hw_video_decode,
            r.gpu.hw_decode_codecs@.len() == 0,
            r.preferences == default_preferences(),
    {
        ClientHello::supported(false)
    }
}

#[derive(Debug, Clone, Copy, PartialEq, Eq, Structural)]
pub struct Ping {
    pub seq: u64,
    /// Milliseconds since UNIX_EPOCH.
    pub sent_at_ms: u64,
}

#[derive(Debug, Clone, Copy, PartialEq, Eq, Structural)]
pub struct Pong {
    pub seq: u64,
    /// Milliseconds since UNIX_EPOCH.
    pub sent_at_ms: u64,
}

#[derive(Debug, Clone, Copy, PartialEq, Eq, Structural)]
pub struct TransportStats {
    /// Best-effort round-trip time observed by the client.
    pub rtt_ms: u32,
    /// Best-effort transport goodput as observed by the client.
    pub rx_kbps: u32,
    pub tx_kbps: u32,
    /// Best-effort mean decode time per frame (milliseconds).
    pub decode_ms: u32,
}

#[derive(Debug, Clone, Copy, PartialEq, Eq, Structural)]
pub enum TransportRequest {
    Config(TransportConfig),
    ConfigScoped { scope: TransportScope, config: TransportConfig },
    Pong(Pong),
}

#[derive(Debug)]
pub enum TransportEvent {
    ClientHello(ClientHello),
    Ping(Ping),
    Stats(TransportStats),
}

/// Every client decodes the lossless codecs, the best one first, and pictures; video comes last, where
/// the client can decode it.
pub proof fn codecs_are_offered(video_h264: bool)
    ensures
        ({
            let codecs = supported_codecs(video_h264);
            &&& codecs.len() == (if video_h264 {
                6int
            } else {
                5int
            })
            &&& codecs[0] == TransportCodec::ShardedZstd { level: 1 }
            &&& codecs[1] == TransportCodec::ShardedLz4
            &&& codecs[2] == TransportCodec::ShardedRaw
            &&& codecs[3] == TransportCodec::Png
            &&& codecs[4] == TransportCodec::Jpeg
            &&& video_h264 ==> codecs[5] == TransportCodec::H264
            &&& codecs.contains(TransportCodec::H264) == video_h264
        }),
{
    let codecs = supported_codecs(video_h264);
    if video_h264 {
        assert(codecs[5] == TransportCodec::H264);
    }
}

/// Without other wishes everything counts the same, and the server may adjust what it does.
pub proof fn wishes_are_balanced()
    ensures
        ({
            let p = default_preferences();
            &&& p.latency_weight == 25 && p.bandwidth_weight == 25 && p.cpu_weight == 25
                && p.clarity_weight == 25
            &&& p.selection_mode == SelectionMode::Dynamic
            &&& p.usage_goal is None && p.drop_tolerance is None && p.retransmit_policy is None
            &&& p.manual_codec is None && p.max_bitrate_kbps is None && p.max_rtt_ms is None
        }),
        default_config().codec == (TransportCodec::ShardedZstd { level: 1 }),
        !default_config().buffer_patches.enabled,
        default_config().buffer_patches.tile_px == 64,
        default_config().buffer_patches.full_frame_threshold.bits == 0x3F19_999A,
        default_config().max_fps is None,
        default_config().jpeg_quality is None,
        default_config().h264_bitrate_kbps is None,
{
}

} // verus!
