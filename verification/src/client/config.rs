//! How the client is set up: what the configuration file says, and what the command line says
//! instead.
use crate::error::Error;
use crate::protocols::wprs::endpoint::Endpoint;
use crate::utils::ieee::{integer, F64};
use crate::utils::socket_addr::{AddrModel, Ipv4Addr, SocketAddr};
use crate::utils::text::owned;
use vstd::prelude::*;

verus! {

/// What shows the windows.
#[derive(Debug, Clone, Copy, PartialEq, Eq, Structural)]
pub enum ClientBackend {
    /// Whatever there is.
    Auto,
    Wayland,
    WinitWgpu,
    SgrPixels,
    Html,
    SmithayWinitGlWayland,
    SmithayWinitGlowWayland,
    SmithayX11GlWayland,
    SmithayX11GlowWayland,
    SmithayDrmGbmEglGlWayland,
    SmithayDrmGbmEglGlowWayland,
    SmithayDrmPixmanWayland,
    SmithayDrmMultiGpuWayland,
    SmithayXwayland,
    SmithayVulkanSupport,
    SmithayDefaultAll,
    SmithayAllLinux,
}

impl Default for ClientBackend {
    fn default() -> (r: Self)
        ensures
            r == ClientBackend::Auto,
    {
        ClientBackend::Auto
    }
}

/// How keys are told to the server.
#[derive(Debug, Clone, Copy, PartialEq, Eq, Structural)]
pub enum KeyboardMode {
    /// The server is sent the local keymap.
    Keymap,
    /// Keys are evdev codes and the server keeps its own keymap.
    Evdev,
}

impl Default for KeyboardMode {
    fn default() -> (r: Self)
        ensures
            r == KeyboardMode::Keymap,
    {
        KeyboardMode::Keymap
    }
}

#[derive(Debug, Clone, Copy, PartialEq, Eq, Structural)]
pub enum WprscRole {
    /// Connects to an existing server and presents remote surfaces.
    Viewer,
    /// Hosts local Wayland clients and presents them locally.
    WaylandServer,
}

impl Default for WprscRole {
    fn default() -> (r: Self)
        ensures
            r == WprscRole::Viewer,
    {
        WprscRole::Viewer
    }
}

/// How much is logged.
#[derive(Debug, Clone, Copy, PartialEq, Eq, Structural)]
pub enum SerializableLevel {
    Error,
    Warn,
    Info,
    Debug,
    Trace,
}

#[derive(Debug)]
pub struct WprscConfig {
    pub role: WprscRole,
    pub socket: String,
    pub endpoint: Option<Endpoint>,
    pub control_socket: String,
    pub log_file: Option<String>,
    pub stderr_log_level: SerializableLevel,
    pub file_log_level: SerializableLevel,
    pub log_priv_data: bool,
    pub title_prefix: String,
    pub auto_reconnect: bool,
    pub present_backend: ClientBackend,
    pub keyboard_mode: KeyboardMode,
    pub xkb_keymap_file: Option<String>,
    pub ui_scale_factor: F64,
    pub html_bind_addr: SocketAddr,
    /// The least output scale factor to report to the server. An integer because the protocol uses
    /// integer scaling.
    pub min_output_scale_factor: Option<i32>,
    pub forward_only: bool,
}

/// Where browsers find the windows.
pub fn default_html_bind_addr() -> (r: SocketAddr)
    ensures
        r@ == (AddrModel::V4 { octets: seq![127u8, 0u8, 0u8, 1u8], port: 7777 }),
{
    let octets: [u8; 4] = [127, 0, 0, 1];
    assert(octets@ =~= seq![127u8, 0u8, 0u8, 1u8]);
    SocketAddr::V4 { ip: Ipv4Addr { octets }, port: 7777 }
}

impl WprscConfig {
    /// What holds where nothing else is said.
    pub fn with_sockets(socket: String, control_socket: String) -> (r: Self)
        ensures
            r.role == WprscRole::Viewer,
            r.socket == socket,
            r.endpoint is None,
            r.control_socket == control_socket,
            r.log_file is None,
            r.stderr_log_level == SerializableLevel::Info,
            r.file_log_level == SerializableLevel::Trace,
            !r.log_priv_data,
            r.title_prefix@.len() == 0,
            r.auto_reconnect,
            r.present_backend == ClientBackend::Auto,
            r.keyboard_mode == KeyboardMode::Keymap,
            r.xkb_keymap_file is None,
            r.ui_scale_factor == integer(1),
            r.html_bind_addr@ == (AddrModel::V4 {
                octets: seq![127u8, 0u8, 0u8, 1u8],
                port: 7777,
            }),
            r.min_output_scale_factor is None,
            !r.forward_only,
    {
        WprscConfig {
            role: WprscRole::default(),
            socket,
            endpoint: None,
            control_socket,
            log_file: None,
            stderr_log_level: SerializableLevel::Info,
            file_log_level: SerializableLevel::Trace,
            log_priv_data: false,
            title_prefix: String::new(),
            auto_reconnect: true,
            present_backend: ClientBackend::default(),
            keyboard_mode: KeyboardMode::default(),
            xkb_keymap_file: None,
            ui_scale_factor: F64::from_i32(1),
            html_bind_addr: default_html_bind_addr(),
            min_output_scale_factor: None,
            forward_only: false,
        }
    }
}

/// What the command line says.
#[derive(Debug)]
pub struct WprscArgs {
    pub socket: Option<String>,
    pub endpoint: Option<Endpoint>,
    pub control_socket: Option<String>,
    pub log_file: Option<String>,
    pub stderr_log_level: Option<SerializableLevel>,
    pub file_log_level: Option<SerializableLevel>,
    pub log_priv_data: Option<bool>,
    pub title_prefix: Option<String>,
    pub role: Option<WprscRole>,
    pub backend: Option<ClientBackend>,
    pub keyboard_mode: Option<KeyboardMode>,
    pub xkb_keymap_file: Option<String>,
    pub ui_scale_factor: Option<F64>,
    pub min_output_scale_factor: Option<i32>,
    pub html_bind_addr: Option<SocketAddr>,
    pub forward_only: bool,
    pub no_auto_reconnect: bool,
}

/// What was given, or else what holds without it.
pub open spec fn given_or<T>(given: Option<T>, otherwise: T) -> T {
    match given {
        Some(value) => value,
        None => otherwise,
    }
}

/// Of two optional values, the first that is there.
pub open spec fn first_given<T>(given: Option<T>, otherwise: Option<T>) -> Option<T> {
    match given {
        Some(value) => Some(value),
        None => otherwise,
    }
}

fn override_with<T>(given: Option<T>, otherwise: T) -> (r: T)
    ensures
        r == given_or(given, otherwise),
{
    match given {
        Some(value) => value,
        None => otherwise,
    }
}

fn override_option<T>(given: Option<T>, otherwise: Option<T>) -> (r: Option<T>)
    ensures
        r == first_given(given, otherwise),
{
    match given {
        Some(value) => Some(value),
        None => otherwise,
    }
}

/// A configuration after the command line was read.
pub open spec fn overridden(config: WprscConfig, args: WprscArgs) -> WprscConfig {
    WprscConfig {
        role: given_or(args.role, config.role),
        socket: given_or(args.socket, config.socket),
        endpoint: first_given(args.endpoint, config.endpoint),
        control_socket: given_or(args.control_socket, config.control_socket),
        log_file: first_given(args.log_file, config.log_file),
        stderr_log_level: given_or(args.stderr_log_level, config.stderr_log_level),
        file_log_level: given_or(args.file_log_level, config.file_log_level),
        log_priv_data: given_or(args.log_priv_data, config.log_priv_data),
        title_prefix: given_or(args.title_prefix, config.title_prefix),
        auto_reconnect: config.auto_reconnect && !args.no_auto_reconnect,
        present_backend: given_or(args.backend, config.present_backend),
        keyboard_mode: given_or(args.keyboard_mode, config.keyboard_mode),
        xkb_keymap_file: first_given(args.xkb_keymap_file, config.xkb_keymap_file),
        ui_scale_factor: given_or(args.ui_scale_factor, config.ui_scale_factor),
        html_bind_addr: given_or(args.html_bind_addr, config.html_bind_addr),
        min_output_scale_factor: first_given(
            args.min_output_scale_factor,
            config.min_output_scale_factor,
        ),
        forward_only: config.forward_only || args.forward_only,
    }
}

impl WprscArgs {
    /// What holds after all: the command line wins over the configuration file, which wins over
    /// what holds without both.
    pub fn load_config(self, defaults: WprscConfig, from_file: Option<WprscConfig>) -> (r: Result<
        WprscConfig,
        Error,
    >)
        ensures
            ({
                let config = overridden(given_or(from_file, defaults), self);
                if config.min_output_scale_factor matches Some(scale) && scale < 1 {
                    r matches Err(Error::Message(text)) && text@
                        == "min_output_scale_factor must be >= 1"@
                } else {
                    r == Ok::<WprscConfig, Error>(config)
                }
            }),
    {
        let cfg = override_with(from_file, defaults);
        let min_output_scale_factor = override_option(
            self.min_output_scale_factor,
            cfg.min_output_scale_factor,
        );
        if let Some(scale) = min_output_scale_factor {
            if scale < 1 {
                return Err(Error::Message(owned("min_output_scale_factor must be >= 1")));
            }
        }
        Ok(
            WprscConfig {
                role: override_with(self.role, cfg.role),
                socket: override_with(self.socket, cfg.socket),
                endpoint: override_option(self.endpoint, cfg.endpoint),
                control_socket: override_with(self.control_socket, cfg.control_socket),
                log_file: override_option(self.log_file, cfg.log_file),
                stderr_log_level: override_with(self.stderr_log_level, cfg.stderr_log_level),
                file_log_level: override_with(self.file_log_level, cfg.file_log_level),
                log_priv_data: override_with(self.log_priv_data, cfg.log_priv_data),
                title_prefix: override_with(self.title_prefix, cfg.title_prefix),
                auto_reconnect: cfg.auto_reconnect && !self.no_auto_reconnect,
                present_backend: override_with(self.backend, cfg.present_backend),
                keyboard_mode: override_with(self.keyboard_mode, cfg.keyboard_mode),
                xkb_keymap_file: override_option(self.xkb_keymap_file, cfg.xkb_keymap_file),
                ui_scale_factor: override_with(self.ui_scale_factor, cfg.ui_scale_factor),
                html_bind_addr: override_with(self.html_bind_addr, cfg.html_bind_addr),
                min_output_scale_factor,
                forward_only: cfg.forward_only || self.forward_only,
            },
        )
    }
}

/// A command line that says nothing changes nothing.
pub proof fn silent_arguments_change_nothing(config: WprscConfig, args: WprscArgs)
    requires
        args.socket is None,
        args.endpoint is None,
        args.control_socket is None,
        args.log_file is None,
        args.stderr_log_level is None,
        args.file_log_level is None,
        args.log_priv_data is None,
        args.title_prefix is None,
        args.role is None,
        args.backend is None,
        args.keyboard_mode is None,
        args.xkb_keymap_file is None,
        args.ui_scale_factor is None,
        args.min_output_scale_factor is None,
        args.html_bind_addr is None,
        !args.forward_only,
        !args.no_auto_reconnect,
    ensures
        overridden(config, args) == config,
{
}

/// What the command line says holds, whatever the configuration says.
pub proof fn the_command_line_wins(config: WprscConfig, args: WprscArgs)
    ensures
        ({
            let r = overridden(config, args);
            &&& args.role matches Some(x) ==> r.role == x
            &&& args.socket matches Some(x) ==> r.socket == x
            &&& args.endpoint is Some ==> r.endpoint == args.endpoint
            &&& args.control_socket matches Some(x) ==> r.control_socket == x
            &&& args.log_file is Some ==> r.log_file == args.log_file
            &&& args.stderr_log_level matches Some(x) ==> r.stderr_log_level == x
            &&& args.file_log_level matches Some(x) ==> r.file_log_level == x
            &&& args.log_priv_data matches Some(x) ==> r.log_priv_data == x
            &&& args.title_prefix matches Some(x) ==> r.title_prefix == x
            &&& args.backend matches Some(x) ==> r.present_backend == x
            &&& args.keyboard_mode matches Some(x) ==> r.keyboard_mode == x
            &&& args.xkb_keymap_file is Some ==> r.xkb_keymap_file == args.xkb_keymap_file
            &&& args.ui_scale_factor matches Some(x) ==> r.ui_scale_factor == x
            &&& args.html_bind_addr matches Some(x) ==> r.html_bind_addr == x
            &&& args.min_output_scale_factor is Some ==> r.min_output_scale_factor
                == args.min_output_scale_factor
            &&& args.no_auto_reconnect ==> !r.auto_reconnect
            &&& args.forward_only ==> r.forward_only
        }),
{
}

/// What the command line says nothing of is as the configuration says.
pub proof fn the_configuration_holds_otherwise(config: WprscConfig, args: WprscArgs)
    ensures
        ({
            let r = overridden(config, args);
            &&& args.role is None ==> r.role == config.role
            &&& args.socket is None ==> r.socket == config.socket
            &&& args.endpoint is None ==> r.endpoint == config.endpoint
            &&& args.control_socket is None ==> r.control_socket == config.control_socket
            &&& args.log_file is None ==> r.log_file == config.log_file
            &&& args.stderr_log_level is None ==> r.stderr_log_level == config.stderr_log_level
            &&& args.file_log_level is None ==> r.file_log_level == config.file_log_level
            &&& args.log_priv_data is None ==> r.log_priv_data == config.log_priv_data
            &&& args.title_prefix is None ==> r.title_prefix == config.title_prefix
            &&& args.backend is None ==> r.present_backend == config.present_backend
            &&& args.keyboard_mode is None ==> r.keyboard_mode == config.keyboard_mode
            &&& args.xkb_keymap_file is None ==> r.xkb_keymap_file == config.xkb_keymap_file
            &&& args.ui_scale_factor is None ==> r.ui_scale_factor == config.ui_scale_factor
            &&& args.html_bind_addr is None ==> r.html_bind_addr == config.html_bind_addr
            &&& args.min_output_scale_factor is None ==> r.min_output_scale_factor
                == config.min_output_scale_factor
            &&& !args.no_auto_reconnect ==> r.auto_reconnect == config.auto_reconnect
            &&& !args.forward_only ==> r.forward_only == config.forward_only
        }),
{
}

} // verus!
