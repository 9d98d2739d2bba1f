//! The device state store: the configuration in force, the status flags that
//! the activities poll, and the slot that holds the serial peripheral until
//! the bridge takes it.

use crate::config::{Ipv4, MyConfig};
use vstd::prelude::*;

verus! {

/// The serial peripheral: the UART, its two pins and the pin of the status
/// LED. It stands for exclusive access to the line and is handed on whole.
pub struct MySerial<U, O, I> {
    pub uart: U,
    pub tx: O,
    pub rx: I,
    pub led: O,
}

/// The shared state of the device. `N` is the handle of the persisted
/// configuration store, `S` the serial peripheral.
pub struct MyState<N, S> {
    /// The configuration of this session.
    pub config: MyConfig,
    /// Label of the firmware slot that is running.
    pub ota_slot: String,
    /// Number of requests and connections served so far.
    pub api_cnt: u32,
    pub nvs: N,
    /// Whether the uplink is up.
    pub wifi_up: bool,
    /// Index of the uplink interface; zero while there is none.
    pub if_index: u32,
    /// The address assigned to the device.
    pub ip_addr: Ipv4,
    /// The address that the connectivity watchdog probes, once known.
    pub ping_ip: Option<Ipv4>,
    pub myid: String,
    /// Whether a restart has been requested.
    pub restart: bool,
    /// The serial peripheral, until it is taken.
    pub serial: Option<S>,
}

impl<N, S> MyState<N, S> {
    /// The state at boot: the given configuration, slot label, store handle
    /// and serial peripheral; no connectivity, no requests, no restart asked.
    pub fn new(config: MyConfig, ota_slot: String, nvs: N, serial: S) -> (state: Self)
        ensures
            state.config == config,
            state.ota_slot == ota_slot,
            state.api_cnt == 0,
            state.nvs == nvs,
            !state.wifi_up,
            state.if_index == 0,
            state.ip_addr == Ipv4::spec_unspecified(),
            state.ping_ip is None,
            state.myid@ == "esp32clock"@,
            !state.restart,
            state.serial == Some(serial),
    {
        MyState {
            config,
            ota_slot,
            api_cnt: 0,
            nvs,
            wifi_up: false,
            if_index: 0,
            ip_addr: Ipv4::unspecified(),
            ping_ip: None,
            myid: "esp32clock".to_owned(),
            restart: false,
            serial: Some(serial),
        }
    }

    /// Counts one more request and returns the number of requests before it.
    /// The counter starts over at zero after `u32::MAX`.
    pub fn count_request(&mut self) -> (before: u32)
        ensures
            before == old(self).api_cnt,
            final(self).api_cnt == (if old(self).api_cnt == u32::MAX {
                0
            } else {
                old(self).api_cnt + 1
            }),
            final(self).config == old(self).config,
            final(self).ota_slot == old(self).ota_slot,
            final(self).nvs == old(self).nvs,
            final(self).wifi_up == old(self).wifi_up,
            final(self).if_index == old(self).if_index,
            final(self).ip_addr == old(self).ip_addr,
            final(self).ping_ip == old(self).ping_ip,
            final(self).myid == old(self).myid,
            final(self).restart == old(self).restart,
            final(self).serial == old(self).serial,
    {
        let before = self.api_cnt;
        self.api_cnt = if before == u32::MAX {
            0
        } else {
            before + 1
        };
        before
    }

    /// Takes the serial peripheral out of its slot. The slot is empty
    /// afterwards, so a second take finds nothing.
    pub fn take_serial(&mut self) -> (handle: Option<S>)
        ensures
            handle == old(self).serial,
            final(self).serial is None,
            final(self).config == old(self).config,
            final(self).ota_slot == old(self).ota_slot,
            final(self).api_cnt == old(self).api_cnt,
            final(self).nvs == old(self).nvs,
            final(self).wifi_up == old(self).wifi_up,
            final(self).if_index == old(self).if_index,
            final(self).ip_addr == old(self).ip_addr,
            final(self).ping_ip == old(self).ping_ip,
            final(self).myid == old(self).myid,
            final(self).restart == old(self).restart,
    {
        self.serial.take()
    }
}

/// A request to replace the firmware by the image at a URL.
#[derive(Debug)]
pub struct UpdateFirmware {
    url: String,
}

impl View for UpdateFirmware {
    type V = Seq<char>;

    closed spec fn view(&self) -> Seq<char> {
        self.url@
    }
}

impl UpdateFirmware {
    /// A request for the image at `url`.
    pub fn new(url: String) -> (req: UpdateFirmware)
        ensures
            req@ == url@,
    {
        UpdateFirmware { url }
    }

    /// The URL of the image.
    pub fn url(&self) -> (url: &str)
        ensures
            url@ == self@,
    {
        self.url.as_str()
    }
}

} // verus!
