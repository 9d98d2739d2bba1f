//! Runtime core of a network-attached serial adapter: one serial line shared
//! by any number of network clients, the pollers that watch the reset button
//! and the uplink, and the supervision that ties all activities to one fate.
//!
//! Nothing in this crate performs I/O. Each activity is a state machine that
//! is told what happened and answers with what to do next; whoever drives it
//! reads the pins, sockets and timers.

pub mod apiserver;
pub mod broadcast;
pub mod config;
pub mod delivery;
pub mod funnel;
pub mod relay;
pub mod reset;
pub mod serial;
pub mod state;
pub mod supervisor;
pub mod watchdog;

pub use apiserver::{get_config, reset_config, run_api_server, save_config, set_config};
pub use config::MyConfig;
pub use reset::{poll_reset, reset_button};
pub use serial::{handle_client, handle_network, handle_serial, run_serial};
pub use state::{MySerial, MyState, UpdateFirmware};
pub use watchdog::pinger;
