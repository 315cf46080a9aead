//! Which of the backends of Smithay is meant, and which of them are there.
use crate::client::backend::ClientBackendConfig;
use crate::client::config::ClientBackend;
use crate::error::Error;
use crate::utils::text::owned;
use vstd::prelude::*;

verus! {

#[derive(Debug, Clone, Copy, PartialEq, Eq, Structural)]
pub enum SmithayBackendKind {
    WinitGl,
    WinitGlow,
    X11Gl,
    X11Glow,
    DrmGbmEglGl,
    DrmGbmEglGlow,
    DrmPixman,
    DrmMultiGpu,
}

pub open spec fn smithay_kind(backend: ClientBackend) -> Option<SmithayBackendKind> {
    match backend {
        ClientBackend::SmithayWinitGlWayland => Some(SmithayBackendKind::WinitGl),
        ClientBackend::SmithayWinitGlowWayland => Some(SmithayBackendKind::WinitGlow),
        ClientBackend::SmithayX11GlWayland => Some(SmithayBackendKind::X11Gl),
        ClientBackend::SmithayX11GlowWayland => Some(SmithayBackendKind::X11Glow),
        ClientBackend::SmithayDrmGbmEglGlWayland => Some(SmithayBackendKind::DrmGbmEglGl),
        ClientBackend::SmithayDrmGbmEglGlowWayland => Some(SmithayBackendKind::DrmGbmEglGlow),
        ClientBackend::SmithayDrmPixmanWayland => Some(SmithayBackendKind::DrmPixman),
        ClientBackend::SmithayDrmMultiGpuWayland => Some(SmithayBackendKind::DrmMultiGpu),
        _ => None,
    }
}

#[derive(Debug)]
pub struct SmithayClientBackend {
    pub config: ClientBackendConfig,
    pub backend: SmithayBackendKind,
    pub name: String,
}

/// How a window is drawn.
#[derive(Debug, Clone, Copy, PartialEq, Eq, Structural)]
pub enum WinitRenderer {
    Gles,
    Glow,
}

pub open spec fn unsupported_text(name: Seq<char>, kind: SmithayBackendKind) -> Seq<char> {
    match kind {
        SmithayBackendKind::X11Gl | SmithayBackendKind::X11Glow => name
            + " backend is not implemented in the Smithay client compositor (X11 backend intentionally unsupported)"@,
        _ => name
            + " backend is not implemented in the Smithay client compositor (DRM backends need session/udev/libinput + output scanning)"@,
    }
}

impl SmithayClientBackend {
    pub fn new(config: ClientBackendConfig, backend: ClientBackend, name: String) -> (r: Result<
        Self,
        Error,
    >)
        ensures
            match smithay_kind(backend) {
                Some(kind) => r == Ok::<Self, Error>(
                    SmithayClientBackend { config, backend: kind, name },
                ),
                None => r matches Err(Error::InvalidArgument(text)) && text@
                    == "smithay backend requested without smithay variant"@,
            },
    {
        let backend = match backend {
            ClientBackend::SmithayWinitGlWayland => SmithayBackendKind::WinitGl,
            ClientBackend::SmithayWinitGlowWayland => SmithayBackendKind::WinitGlow,
            ClientBackend::SmithayX11GlWayland => SmithayBackendKind::X11Gl,
            ClientBackend::SmithayX11GlowWayland => SmithayBackendKind::X11Glow,
            ClientBackend::SmithayDrmGbmEglGlWayland => SmithayBackendKind::DrmGbmEglGl,
            ClientBackend::SmithayDrmGbmEglGlowWayland => SmithayBackendKind::DrmGbmEglGlow,
            ClientBackend::SmithayDrmPixmanWayland => SmithayBackendKind::DrmPixman,
            ClientBackend::SmithayDrmMultiGpuWayland => SmithayBackendKind::DrmMultiGpu,
            _ => {
                return Err(
                    Error::InvalidArgument(
                        owned("smithay backend requested without smithay variant"),
                    ),
                );
            },
        };
        Ok(SmithayClientBackend { config, backend, name })
    }

    /// How the window is drawn. Only windows of another compositor can be.
    pub fn renderer(&self) -> (r: Result<WinitRenderer, Error>)
        ensures
            match self.backend {
                SmithayBackendKind::WinitGl => r == Ok::<WinitRenderer, Error>(
                    WinitRenderer::Gles,
                ),
                SmithayBackendKind::WinitGlow => r == Ok::<WinitRenderer, Error>(
                    WinitRenderer::Glow,
                ),
                kind => r matches Err(Error::Unsupported(text)) && text@ == unsupported_text(
                    self.name@,
                    kind,
                ),
            },
    {
        match self.backend {
            SmithayBackendKind::WinitGl => Ok(WinitRenderer::Gles),
            SmithayBackendKind::WinitGlow => Ok(WinitRenderer::Glow),
            SmithayBackendKind::X11Gl | SmithayBackendKind::X11Glow => {
                let mut text = owned(self.name.as_str());
                text.append(
                    " backend is not implemented in the Smithay client compositor (X11 backend intentionally unsupported)",
                );
                Err(Error::Unsupported(text))
            },
            _ => {
                let mut text = owned(self.name.as_str());
                text.append(
                    " backend is not implemented in the Smithay client compositor (DRM backends need session/udev/libinput + output scanning)",
                );
                Err(Error::Unsupported(text))
            },
        }
    }
}

/// Each Smithay backend is of the kind that its name says, and no other backend is one.
pub proof fn kinds_are_as_named(backend: ClientBackend)
    ensures
        smithay_kind(backend) == Some(SmithayBackendKind::WinitGl) <==> backend
            == ClientBackend::SmithayWinitGlWayland,
        smithay_kind(backend) == Some(SmithayBackendKind::WinitGlow) <==> backend
            == ClientBackend::SmithayWinitGlowWayland,
        smithay_kind(backend) == Some(SmithayBackendKind::X11Gl) <==> backend
            == ClientBackend::SmithayX11GlWayland,
        smithay_kind(backend) == Some(SmithayBackendKind::X11Glow) <==> backend
            == ClientBackend::SmithayX11GlowWayland,
        smithay_kind(backend) == Some(SmithayBackendKind::DrmGbmEglGl) <==> backend
            == ClientBackend::SmithayDrmGbmEglGlWayland,
        smithay_kind(backend) == Some(SmithayBackendKind::DrmGbmEglGlow) <==> backend
            == ClientBackend::SmithayDrmGbmEglGlowWayland,
        smithay_kind(backend) == Some(SmithayBackendKind::DrmPixman) <==> backend
            == ClientBackend::SmithayDrmPixmanWayland,
        smithay_kind(backend) == Some(SmithayBackendKind::DrmMultiGpu) <==> backend
            == ClientBackend::SmithayDrmMultiGpuWayland,
{
}

} // verus!
