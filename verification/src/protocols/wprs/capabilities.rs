use vstd::prelude::*;

verus! {

/// Client-reported CPU features.
///
/// This is intentionally conservative: it is best-effort metadata that the server can
/// use to pick a sensible default.
#[derive(Debug, Clone, Copy, Eq, PartialEq, Structural)]
pub struct CpuFeatures {
    pub avx2: bool,
    pub neon: bool,
}

impl Default for CpuFeatures {
    fn default() -> (r: Self)
        ensures
            !r.avx2,
            !r.neon,
    {
        CpuFeatures { avx2: false, neon: false }
    }
}

/// Client-reported GPU and acceleration capabilities: hints for transport policy.
#[derive(Debug)]
pub struct GpuFeatures {
    /// Whether the client can efficiently upload textures and do scaling/compositing on GPU.
    pub has_gpu_rendering: bool,
    /// Whether the client supports decoding typical video codecs via hardware acceleration.
    pub has_hw_video_decode: bool,
    /// Best-effort list of hardware decode codecs supported by the client.
    ///
    /// Example values: "h264", "hevc", "vp9", "av1".
    pub hw_decode_codecs: Vec<String>,
}

impl Default for GpuFeatures {
    fn default() -> (r: Self)
        ensures
            !r.has_gpu_rendering,
            !r.has_hw_video_decode,
            r.hw_decode_codecs@ == Seq::<String>::empty(),
    {
        GpuFeatures {
            has_gpu_rendering: false,
            has_hw_video_decode: false,
            hw_decode_codecs: Vec::new(),
        }
    }
}

} // verus!
