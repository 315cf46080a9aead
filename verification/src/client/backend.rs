//! Which backend shows the windows.
use crate::client::config::{ClientBackend, KeyboardMode, WprscConfig};
use crate::error::Error;
use crate::utils::ieee::{integer, F64};
use crate::utils::socket_addr::{AddrModel, SocketAddr};
use crate::client::config::default_html_bind_addr;
use crate::utils::text::{decimal, owned, push_decimal};
use vstd::prelude::*;

verus! {

#[derive(Debug)]
pub struct ClientBackendConfig {
    pub title_prefix: String,
    pub control_socket: String,
    pub keyboard_mode: KeyboardMode,
    pub xkb_keymap_file: Option<String>,
    pub ui_scale_factor: F64,
    pub min_output_scale_factor: Option<i32>,
    pub html_bind_addr: SocketAddr,
}

impl ClientBackendConfig {
    /// The part of the configuration that is about the backend.
    pub fn of_client(config: WprscConfig) -> (r: Self)
        ensures
            r == (ClientBackendConfig {
                title_prefix: config.title_prefix,
                control_socket: config.control_socket,
                keyboard_mode: config.keyboard_mode,
                xkb_keymap_file: config.xkb_keymap_file,
                ui_scale_factor: config.ui_scale_factor,
                min_output_scale_factor: config.min_output_scale_factor,
                html_bind_addr: config.html_bind_addr,
            }),
    {
        ClientBackendConfig {
            title_prefix: config.title_prefix,
            control_socket: config.control_socket,
            keyboard_mode: config.keyboard_mode,
            xkb_keymap_file: config.xkb_keymap_file,
            ui_scale_factor: config.ui_scale_factor,
            min_output_scale_factor: config.min_output_scale_factor,
            html_bind_addr: config.html_bind_addr,
        }
    }

    /// The configuration of a backend that was started for one program.
    pub fn new_for_wrun(control_socket: String) -> (r: Self)
        ensures
            r.title_prefix@.len() == 0,
            r.control_socket == control_socket,
            r.keyboard_mode == KeyboardMode::Keymap,
            r.xkb_keymap_file is None,
            r.ui_scale_factor == integer(1),
            r.min_output_scale_factor is None,
            r.html_bind_addr@ == (AddrModel::V4 {
                octets: seq![127u8, 0u8, 0u8, 1u8],
                port: 7777,
            }),
    {
        ClientBackendConfig {
            title_prefix: String::new(),
            control_socket,
            keyboard_mode: KeyboardMode::default(),
            xkb_keymap_file: None,
            ui_scale_factor: F64::from_i32(1),
            min_output_scale_factor: None,
            html_bind_addr: default_html_bind_addr(),
        }
    }
}

/// The name of the control socket of a backend that was started for one program.
pub fn wrun_control_socket_name(backend: &str, pid: u32) -> (r: String)
    ensures
        r@ == "wrun-"@ + backend@ + "-"@ + decimal(pid as nat) + "-ctrl.sock"@,
{
    let mut name = owned("wrun-");
    name.append(backend);
    name.append("-");
    push_decimal(&mut name, pid as u64);
    name.append("-ctrl.sock");
    name
}

/// Whether there is a compositor to connect to.
#[derive(Debug)]
pub enum Compositor {
    /// The Wayland backend is not there to ask.
    NotCompiled,
    Reachable,
    Absent,
    /// Something else went wrong.
    Failed(String),
}

/// What this host and this program can do.
#[derive(Debug)]
pub struct HostSupport {
    pub compositor: Compositor,
    pub winit_wgpu: bool,
}

/// The backend for `Auto`: that of the compositor where there is one, else windows of its own, and
/// the terminal where those are not there.
pub open spec fn auto_backend(host: HostSupport) -> Result<ClientBackend, Seq<char>> {
    match host.compositor {
        Compositor::Reachable => Ok(ClientBackend::Wayland),
        Compositor::Failed(text) => Err(text@),
        _ => if host.winit_wgpu {
            Ok(ClientBackend::WinitWgpu)
        } else {
            Ok(ClientBackend::SgrPixels)
        },
    }
}

/// The backend that is meant: one that is named is not changed.
pub open spec fn resolved_backend(requested: ClientBackend, host: HostSupport) -> Result<
    ClientBackend,
    Seq<char>,
> {
    if requested == ClientBackend::Auto {
        auto_backend(host)
    } else {
        Ok(requested)
    }
}

fn resolve_auto_backend(host: HostSupport) -> (r: Result<ClientBackend, Error>)
    ensures
        match auto_backend(host) {
            Ok(backend) => r == Ok::<ClientBackend, Error>(backend),
            Err(text) => r matches Err(Error::Message(message)) && message@ == text,
        },
{
    match host.compositor {
        Compositor::Reachable => Ok(ClientBackend::Wayland),
        Compositor::Failed(text) => Err(Error::Message(text)),
        _ => if host.winit_wgpu {
            Ok(ClientBackend::WinitWgpu)
        } else {
            Ok(ClientBackend::SgrPixels)
        },
    }
}

/// The backend that is meant.
pub fn resolve_client_backend(requested: ClientBackend, host: HostSupport) -> (r: Result<
    ClientBackend,
    Error,
>)
    ensures
        match resolved_backend(requested, host) {
            Ok(backend) => r == Ok::<ClientBackend, Error>(backend),
            Err(text) => r matches Err(Error::Message(message)) && message@ == text,
        },
{
    match requested {
        ClientBackend::Auto => resolve_auto_backend(host),
        other => Ok(other),
    }
}

/// A backend that is there.
#[derive(Debug, Clone, Copy, PartialEq, Eq, Structural)]
pub enum BuiltBackend {
    Wayland,
    WinitWgpu,
    SgrPixels,
    Html,
}

pub open spec fn backend_name(backend: BuiltBackend) -> Seq<char> {
    match backend {
        BuiltBackend::Wayland => "wayland"@,
        BuiltBackend::WinitWgpu => "winit-wgpu"@,
        BuiltBackend::SgrPixels => "sgr-pixels"@,
        BuiltBackend::Html => "html"@,
    }
}

impl BuiltBackend {
    pub fn name(&self) -> (r: &'static str)
        ensures
            r@ == backend_name(*self),
    {
        match self {
            BuiltBackend::Wayland => "wayland",
            BuiltBackend::WinitWgpu => "winit-wgpu",
            BuiltBackend::SgrPixels => "sgr-pixels",
            BuiltBackend::Html => "html",
        }
    }
}

/// The backend to start, or why there is none. The names that begin with `Smithay` stand for
/// windows of its own.
pub open spec fn built_backend(
    requested: ClientBackend,
    wayland_client: bool,
    winit_wgpu_client: bool,
) -> Result<BuiltBackend, Seq<char>> {
    match requested {
        ClientBackend::Auto => Err(
            "ClientBackend::Auto must be resolved before calling build_client_backend"@,
        ),
        ClientBackend::Wayland => if wayland_client {
            Ok(BuiltBackend::Wayland)
        } else {
            Err(
                "Wayland backend requested but not compiled in. Rebuild with `--features wayland-client`."@,
            )
        },
        ClientBackend::SgrPixels => Ok(BuiltBackend::SgrPixels),
        ClientBackend::Html => Ok(BuiltBackend::Html),
        _ => if winit_wgpu_client {
            Ok(BuiltBackend::WinitWgpu)
        } else {
            Err(
                "winit-wgpu backend requested but not compiled in. Rebuild with `--features winit-wgpu-client`."@,
            )
        },
    }
}

fn build_winit_wgpu_backend(winit_wgpu_client: bool) -> (r: Result<BuiltBackend, Error>)
    ensures
        if winit_wgpu_client {
            r == Ok::<BuiltBackend, Error>(BuiltBackend::WinitWgpu)
        } else {
            r matches Err(Error::Message(text)) && text@
                == "winit-wgpu backend requested but not compiled in. Rebuild with `--features winit-wgpu-client`."@
        },
{
    if winit_wgpu_client {
        Ok(BuiltBackend::WinitWgpu)
    } else {
        Err(
            Error::Message(
                owned(
                    "winit-wgpu backend requested but not compiled in. Rebuild with `--features winit-wgpu-client`.",
                ),
            ),
        )
    }
}

/// The backend to start, given which of them this program was built with.
pub fn build_client_backend(
    requested: ClientBackend,
    wayland_client: bool,
    winit_wgpu_client: bool,
) -> (r: Result<BuiltBackend, Error>)
    ensures
        match built_backend(requested, wayland_client, winit_wgpu_client) {
            Ok(backend) => r == Ok::<BuiltBackend, Error>(backend),
            Err(text) => r matches Err(Error::Message(message)) && message@ == text,
        },
{
    match requested {
        ClientBackend::Auto => Err(
            Error::Message(
                owned("ClientBackend::Auto must be resolved before calling build_client_backend"),
            ),
        ),
        ClientBackend::Wayland => if wayland_client {
            Ok(BuiltBackend::Wayland)
        } else {
            Err(
                Error::Message(
                    owned(
                        "Wayland backend requested but not compiled in. Rebuild with `--features wayland-client`.",
                    ),
                ),
            )
        },
        ClientBackend::SgrPixels => Ok(BuiltBackend::SgrPixels),
        ClientBackend::Html => Ok(BuiltBackend::Html),
        _ => build_winit_wgpu_backend(winit_wgpu_client),
    }
}

/// A backend that is named is the one that is meant.
pub proof fn named_backends_stay(requested: ClientBackend, host: HostSupport)
    requires
        requested != ClientBackend::Auto,
    ensures
        resolved_backend(requested, host) == Ok::<ClientBackend, Seq<char>>(requested),
{
}

/// What was resolved is never `Auto`, so that it can be built, and the backend that `Auto` stands
/// for was built in where the host says so.
pub proof fn resolved_backends_can_be_built(requested: ClientBackend, host: HostSupport)
    ensures
        resolved_backend(requested, host) matches Ok(backend) ==> {
            &&& backend != ClientBackend::Auto
            &&& requested == ClientBackend::Auto ==> built_backend(
                backend,
                !(host.compositor is NotCompiled),
                host.winit_wgpu,
            ) is Ok
        },
{
}

/// `Auto` stands for the compositor where there is one, for windows of its own where there is none
/// and they can be had, and for the terminal otherwise. A compositor that fails is told of.
pub proof fn auto_takes_what_is_there(compositor: Compositor, winit_wgpu: bool, text: String)
    ensures
        resolved_backend(
            ClientBackend::Auto,
            HostSupport { compositor: Compositor::Reachable, winit_wgpu },
        ) == Ok::<ClientBackend, Seq<char>>(ClientBackend::Wayland),
        resolved_backend(
            ClientBackend::Auto,
            HostSupport { compositor: Compositor::Failed(text), winit_wgpu },
        ) == Err::<ClientBackend, Seq<char>>(text@),
        compositor is NotCompiled || compositor is Absent ==> resolved_backend(
            ClientBackend::Auto,
            HostSupport { compositor, winit_wgpu: true },
        ) == Ok::<ClientBackend, Seq<char>>(ClientBackend::WinitWgpu) && resolved_backend(
            ClientBackend::Auto,
            HostSupport { compositor, winit_wgpu: false },
        ) == Ok::<ClientBackend, Seq<char>>(ClientBackend::SgrPixels),
{
}

/// The terminal and the browser are always there, the compositor and windows where they were built
/// in. `Auto` itself is nothing to start.
pub proof fn backends_are_started_as_named(requested: ClientBackend, wayland: bool, winit: bool)
    ensures
        built_backend(ClientBackend::SgrPixels, wayland, winit) == Ok::<BuiltBackend, Seq<char>>(
            BuiltBackend::SgrPixels,
        ),
        built_backend(ClientBackend::Html, wayland, winit) == Ok::<BuiltBackend, Seq<char>>(
            BuiltBackend::Html,
        ),
        built_backend(ClientBackend::Wayland, true, winit) == Ok::<BuiltBackend, Seq<char>>(
            BuiltBackend::Wayland,
        ),
        built_backend(ClientBackend::WinitWgpu, wayland, true) == Ok::<BuiltBackend, Seq<char>>(
            BuiltBackend::WinitWgpu,
        ),
        built_backend(ClientBackend::Wayland, false, winit) is Err,
        built_backend(ClientBackend::WinitWgpu, wayland, false) is Err,
        built_backend(ClientBackend::Auto, wayland, winit) is Err,
        built_backend(requested, wayland, winit) == Ok::<BuiltBackend, Seq<char>>(
            BuiltBackend::Wayland,
        ) ==> requested == ClientBackend::Wayland && wayland,
        built_backend(requested, wayland, winit) == Ok::<BuiltBackend, Seq<char>>(
            BuiltBackend::SgrPixels,
        ) ==> requested == ClientBackend::SgrPixels,
        built_backend(requested, wayland, winit) == Ok::<BuiltBackend, Seq<char>>(
            BuiltBackend::Html,
        ) ==> requested == ClientBackend::Html,
{
}

/// Backends are named as users name them.
pub proof fn backends_have_their_names()
    ensures
        backend_name(BuiltBackend::Wayland) == "wayland"@,
        backend_name(BuiltBackend::WinitWgpu) == "winit-wgpu"@,
        backend_name(BuiltBackend::SgrPixels) == "sgr-pixels"@,
        backend_name(BuiltBackend::Html) == "html"@,
{
}

} // verus!
