//! The decisions of the management surface that touch the core: which
//! submitted configurations are stored and in what form, and how a stored
//! configuration leads to a restart.
//!
//! A change of configuration never restarts the device by itself. The new
//! configuration is persisted first; only when that has succeeded is the
//! restart-request flag set, and the reset monitor carries the restart out at
//! its next tick, after the reply has gone out.

use crate::config::{Ipv4, MyConfig, MAX_V4MASK};
use crate::reset::{ResetAction, ResetState, Tick};
use crate::serial::{startup, Startup, NETWORK_POLL_SECS};
use crate::state::MyState;
use vstd::prelude::*;

verus! {

/// HTTP status of a reply that reports success.
pub const STATUS_OK: u16 = 200;

/// HTTP status of a reply that reports an error.
pub const STATUS_INTERNAL_SERVER_ERROR: u16 = 500;

/// What the management surface replies to a change of configuration.
#[derive(Clone, Copy, Debug, PartialEq, Eq, Structural)]
pub enum ApiReply {
    /// The configuration is stored and the restart is requested.
    Saved,
    /// The network mask is not one that a configuration may carry.
    MaskOutOfRange,
    /// The configuration could not be stored.
    StoreFailed,
}

impl ApiReply {
    /// The HTTP status of this reply.
    pub open spec fn spec_status(self) -> u16 {
        match self {
            ApiReply::Saved => STATUS_OK,
            _ => STATUS_INTERNAL_SERVER_ERROR,
        }
    }

    /// The HTTP status of this reply.
    #[verifier::when_used_as_spec(spec_status)]
    pub fn status(self) -> (code: u16)
        ensures
            code == self.spec_status(),
    {
        match self {
            ApiReply::Saved => STATUS_OK,
            _ => STATUS_INTERNAL_SERVER_ERROR,
        }
    }

    /// The text of this reply, but for the detail of a failed store.
    pub fn message(self) -> (text: &'static str)
        ensures
            text@ == (match self {
                ApiReply::Saved => "OK"@,
                ApiReply::MaskOutOfRange => "IPv4 mask error: bits must be between 0..30"@,
                ApiReply::StoreFailed => "Nvs write error"@,
            }),
    {
        match self {
            ApiReply::Saved => "OK",
            ApiReply::MaskOutOfRange => "IPv4 mask error: bits must be between 0..30",
            ApiReply::StoreFailed => "Nvs write error",
        }
    }
}

/// The start of the management surface: it waits for connectivity and then
/// listens on the configured port.
pub fn run_api_server(wifi_up: bool, config: &MyConfig) -> (next: Startup)
    ensures
        next == startup(wifi_up, config.port),
{
    if wifi_up {
        Startup::Bind(config.port)
    } else {
        Startup::Wait(NETWORK_POLL_SECS)
    }
}

/// Serves a request for the configuration in force: the request is counted
/// and the configuration returned.
pub fn get_config<N, S>(state: &mut MyState<N, S>) -> (config: MyConfig)
    ensures
        config == old(state).config,
        final(state).config == old(state).config,
        final(state).restart == old(state).restart,
        final(state).serial == old(state).serial,
        final(state).api_cnt == (if old(state).api_cnt == u32::MAX {
            0
        } else {
            old(state).api_cnt + 1
        }),
{
    let _ = state.count_request();
    state.config
}

/// Examines a submitted configuration. The request is counted. A mask of
/// more than 30 bits is refused; otherwise the configuration is to be stored,
/// with its static addressing cleared if it asks for DHCP. Nothing is stored
/// here and no restart is requested yet.
pub fn set_config<N, S>(state: &mut MyState<N, S>, config: MyConfig) -> (res: Result<
    MyConfig,
    ApiReply,
>)
    ensures
        res == (if config.mask_ok() {
            Ok::<MyConfig, ApiReply>(config.normalized())
        } else {
            Err::<MyConfig, ApiReply>(ApiReply::MaskOutOfRange)
        }),
        final(state).config == old(state).config,
        final(state).restart == old(state).restart,
        final(state).serial == old(state).serial,
        final(state).api_cnt == (if old(state).api_cnt == u32::MAX {
            0
        } else {
            old(state).api_cnt + 1
        }),
{
    let _ = state.count_request();
    if config.v4mask > MAX_V4MASK {
        return Err(ApiReply::MaskOutOfRange);
    }
    if config.v4dhcp {
        Ok(
            MyConfig {
                v4addr: Ipv4::unspecified(),
                v4mask: 0,
                v4gw: Ipv4::unspecified(),
                dns1: Ipv4::unspecified(),
                dns2: Ipv4::unspecified(),
                ..config
            },
        )
    } else {
        Ok(config)
    }
}

/// Serves a request to go back to the factory configuration: the request is
/// counted and the factory configuration is to be stored.
pub fn reset_config<N, S>(state: &mut MyState<N, S>) -> (config: MyConfig)
    ensures
        config == MyConfig::factory(),
        final(state).config == old(state).config,
        final(state).restart == old(state).restart,
        final(state).serial == old(state).serial,
        final(state).api_cnt == (if old(state).api_cnt == u32::MAX {
            0
        } else {
            old(state).api_cnt + 1
        }),
{
    let _ = state.count_request();
    MyConfig::default()
}

/// Concludes a change of configuration, given whether the new configuration
/// was stored. Only a stored configuration requests the restart; a failed
/// store leaves the flag as it was.
pub fn save_config<N, S>(state: &mut MyState<N, S>, stored: bool) -> (reply: ApiReply)
    ensures
        reply == (if stored {
            ApiReply::Saved
        } else {
            ApiReply::StoreFailed
        }),
        final(state).restart == (old(state).restart || stored),
        final(state).config == old(state).config,
        final(state).api_cnt == old(state).api_cnt,
        final(state).serial == old(state).serial,
{
    if stored {
        state.restart = true;
        ApiReply::Saved
    } else {
        ApiReply::StoreFailed
    }
}

/// Persist, then flag, then restart.
///
/// The restart-request flag of a state in which it was clear is set by
/// `save_config` exactly if the configuration was stored, and a flag that is
/// set makes the reset monitor ask for the restart at its next tick, in any
/// state of the monitor and whatever the button does.
pub proof fn law_stored_configuration_restarts(
    flag_before: bool,
    stored: bool,
    monitor: ResetState,
    pressed: bool,
)
    ensures
        (flag_before || stored) ==> monitor.step(
            Tick { restart_requested: flag_before || stored, pressed },
        ).1 == ResetAction::Restart,
        !flag_before && !stored ==> monitor.step(
            Tick { restart_requested: flag_before || stored, pressed },
        ).1 != ResetAction::Restart,
{
}

} // verus!
