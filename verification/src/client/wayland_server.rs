//! The client as a compositor of its own.
use crate::client::config::WprscConfig;
use crate::error::Error;
use crate::utils::text::{decimal, owned, push_decimal};
use vstd::prelude::*;

verus! {

/// Whether the client can host local Wayland clients, given whether it was built to.
pub fn check_config(config: &WprscConfig, wayland: bool) -> (r: Result<(), Error>)
    ensures
        if config.forward_only {
            r matches Err(Error::Message(text)) && text@
                == "--forward-only is only meaningful for role=viewer"@
        } else if !wayland {
            r matches Err(Error::Message(text)) && text@
                == "role=wayland-server requires building wprsc with `--features wayland`"@
        } else {
            r is Ok
        },
{
    if config.forward_only {
        return Err(
            Error::Message(owned("--forward-only is only meaningful for role=viewer")),
        );
    }
    if !wayland {
        return Err(
            Error::Message(
                owned("role=wayland-server requires building wprsc with `--features wayland`"),
            ),
        );
    }
    Ok(())
}

/// The name under which local Wayland clients find the compositor.
pub fn wayland_display_name(pid: u32) -> (r: String)
    ensures
        r@ == "wprsc-"@ + decimal(pid as nat),
{
    let mut name = owned("wprsc-");
    push_decimal(&mut name, pid as u64);
    name
}

/// The directory of the socket between the two halves of the client.
pub fn internal_dir_name(pid: u32, nanos: u64) -> (r: String)
    ensures
        r@ == "wprsc-internal-"@ + decimal(pid as nat) + "-"@ + decimal(nanos as nat),
{
    let mut name = owned("wprsc-internal-");
    push_decimal(&mut name, pid as u64);
    name.append("-");
    push_decimal(&mut name, nanos);
    name
}

} // verus!
