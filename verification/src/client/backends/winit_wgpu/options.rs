//! How the windows of the client are set up.
use crate::client::backend::ClientBackendConfig;
use crate::client::config::KeyboardMode;
use crate::utils::ieee::F64;
use vstd::prelude::*;

verus! {

#[derive(Debug)]
pub struct WinitWgpuOptions {
    pub keyboard_mode: KeyboardMode,
    pub xkb_keymap_file: Option<String>,
    pub ui_scale_factor: F64,
    pub min_output_scale_factor: i32,
}

#[derive(Debug)]
pub struct WinitWgpuClientBackend {
    pub options: WinitWgpuOptions,
}

/// The least scale that is reported to the server. Displays of macOS look blurred below two.
pub open spec fn least_scale(given: Option<i32>, macos: bool) -> i32 {
    match given {
        Some(scale) => if scale < 1 {
            1
        } else {
            scale
        },
        None => if macos {
            2
        } else {
            1
        },
    }
}

impl WinitWgpuClientBackend {
    pub fn new(config: ClientBackendConfig, macos: bool) -> (r: Self)
        ensures
            r.options == (WinitWgpuOptions {
                keyboard_mode: config.keyboard_mode,
                xkb_keymap_file: config.xkb_keymap_file,
                ui_scale_factor: config.ui_scale_factor,
                min_output_scale_factor: least_scale(config.min_output_scale_factor, macos),
            }),
            r.options.min_output_scale_factor >= 1,
    {
        let given: i32 = match config.min_output_scale_factor {
            Some(scale) => scale,
            None => if macos {
                2
            } else {
                1
            },
        };
        let min_output_scale_factor: i32 = if given < 1 {
            1
        } else {
            given
        };
        WinitWgpuClientBackend {
            options: WinitWgpuOptions {
                keyboard_mode: config.keyboard_mode,
                xkb_keymap_file: config.xkb_keymap_file,
                ui_scale_factor: config.ui_scale_factor,
                min_output_scale_factor,
            },
        }
    }
}

/// The least scale is the one that was given, if that is a scale; without one it is two for displays
/// of macOS, and one for others.
pub proof fn least_scales(given: i32, macos: bool)
    ensures
        given >= 1 ==> least_scale(Some(given), macos) == given,
        given < 1 ==> least_scale(Some(given), macos) == 1,
        least_scale(None, true) == 2,
        least_scale(None, false) == 1,
{
}

} // verus!
