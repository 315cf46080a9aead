use wprs::client::backend::{resolve_client_backend, Compositor, HostSupport};
use wprs::client::config::ClientBackend;

#[test]
fn explicit_backend_is_not_modified() {
    let host = HostSupport {
        compositor: Compositor::NotCompiled,
        winit_wgpu: false,
    };
    assert_eq!(
        resolve_client_backend(ClientBackend::SgrPixels, host).unwrap(),
        ClientBackend::SgrPixels
    );
}

#[test]
fn auto_prefers_winit_when_wayland_client_missing() {
    let host = HostSupport {
        compositor: Compositor::NotCompiled,
        winit_wgpu: true,
    };
    assert_eq!(
        resolve_client_backend(ClientBackend::Auto, host).unwrap(),
        ClientBackend::WinitWgpu
    );
}
