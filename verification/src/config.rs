//! The configuration of the adapter: a snapshot that is replaced as a whole
//! and never patched field by field.

use vstd::prelude::*;

verus! {

/// An IPv4 address, written `a.b.c.d`.
#[derive(Clone, Copy, Debug, PartialEq, Eq, Structural)]
pub struct Ipv4 {
    pub a: u8,
    pub b: u8,
    pub c: u8,
    pub d: u8,
}

impl Ipv4 {
    /// The address `a.b.c.d`.
    pub fn new(a: u8, b: u8, c: u8, d: u8) -> (ip: Ipv4)
        ensures
            ip == (Ipv4 { a, b, c, d }),
    {
        Ipv4 { a, b, c, d }
    }

    /// The address `0.0.0.0`.
    pub open spec fn spec_unspecified() -> Ipv4 {
        Ipv4 { a: 0, b: 0, c: 0, d: 0 }
    }

    /// The address `0.0.0.0`, which stands for "none".
    #[verifier::when_used_as_spec(spec_unspecified)]
    pub fn unspecified() -> (ip: Ipv4)
        ensures
            ip == Ipv4::spec_unspecified(),
    {
        Ipv4 { a: 0, b: 0, c: 0, d: 0 }
    }

    /// The four octets, first to last.
    pub fn octets(&self) -> (o: [u8; 4])
        ensures
            o[0] == self.a,
            o[1] == self.b,
            o[2] == self.c,
            o[3] == self.d,
    {
        [self.a, self.b, self.c, self.d]
    }
}

/// The widest network mask, in bits, that a configuration may carry.
pub const MAX_V4MASK: u8 = 30;

/// Port of the management surface in the default configuration.
pub const DEFAULT_API_PORT: u16 = 80;

/// Port of the serial bridge in the default configuration.
pub const DEFAULT_SERIAL_TCP_PORT: u16 = 23;

/// Baud rate of the serial line in the default configuration.
pub const DEFAULT_BPS: u32 = 9600;

/// The configuration of the adapter.
#[derive(Clone, Copy, Debug, PartialEq, Eq, Structural)]
pub struct MyConfig {
    /// TCP port of the management surface.
    pub port: u16,
    /// Baud rate of the serial line.
    pub bps: u32,
    /// TCP port of the serial bridge.
    pub serial_tcp_port: u16,
    /// Whether bytes from network clients are written to the serial line.
    pub serial_write_enabled: bool,
    /// Whether the address is obtained by DHCP rather than set statically.
    pub v4dhcp: bool,
    pub v4addr: Ipv4,
    /// Length of the network mask in bits.
    pub v4mask: u8,
    pub v4gw: Ipv4,
    pub dns1: Ipv4,
    pub dns2: Ipv4,
}

impl MyConfig {
    /// The factory configuration: DHCP, no static addressing, the bridge on
    /// its customary port and read-only.
    pub open spec fn factory() -> MyConfig {
        MyConfig {
            port: DEFAULT_API_PORT,
            bps: DEFAULT_BPS,
            serial_tcp_port: DEFAULT_SERIAL_TCP_PORT,
            serial_write_enabled: false,
            v4dhcp: true,
            v4addr: Ipv4::spec_unspecified(),
            v4mask: 0,
            v4gw: Ipv4::spec_unspecified(),
            dns1: Ipv4::spec_unspecified(),
            dns2: Ipv4::spec_unspecified(),
        }
    }

    /// This configuration with its static addressing cleared.
    pub open spec fn without_static_addressing(self) -> MyConfig {
        MyConfig {
            v4addr: Ipv4::spec_unspecified(),
            v4mask: 0,
            v4gw: Ipv4::spec_unspecified(),
            dns1: Ipv4::spec_unspecified(),
            dns2: Ipv4::spec_unspecified(),
            ..self
        }
    }

    /// The form in which a submitted configuration is stored: under DHCP the
    /// static addressing is cleared, otherwise nothing changes.
    pub open spec fn normalized(self) -> MyConfig {
        if self.v4dhcp {
            self.without_static_addressing()
        } else {
            self
        }
    }

    /// The mask is one that a configuration may carry.
    pub open spec fn mask_ok(self) -> bool {
        self.v4mask <= MAX_V4MASK
    }
}

impl Default for MyConfig {
    fn default() -> (c: MyConfig)
        ensures
            c == MyConfig::factory(),
    {
        MyConfig {
            port: DEFAULT_API_PORT,
            bps: DEFAULT_BPS,
            serial_tcp_port: DEFAULT_SERIAL_TCP_PORT,
            serial_write_enabled: false,
            v4dhcp: true,
            v4addr: Ipv4::unspecified(),
            v4mask: 0,
            v4gw: Ipv4::unspecified(),
            dns1: Ipv4::unspecified(),
            dns2: Ipv4::unspecified(),
        }
    }
}

/// Chooses the configuration of a session at boot, given what the persisted
/// store held, if anything readable. A stored configuration is taken as it
/// is. Without one the factory configuration is taken and is to be stored, so
/// a missing or unreadable configuration never keeps the device from booting.
pub fn boot_config(stored: Option<MyConfig>) -> (out: (MyConfig, bool))
    ensures
        out == (match stored {
            Some(config) => (config, false),
            None => (MyConfig::factory(), true),
        }),
{
    match stored {
        Some(config) => (config, false),
        None => (MyConfig::default(), true),
    }
}

/// The settings of the serial line.
#[derive(Clone, Copy, Debug, PartialEq, Eq, Structural)]
pub struct SerialSettings {
    pub baud: u32,
    pub data_bits: u8,
    pub parity: bool,
    pub stop_bits: u8,
    pub flow_control: bool,
}

/// The serial line runs 8N1 without flow control at the configured baud rate.
pub fn serial_settings(config: &MyConfig) -> (s: SerialSettings)
    ensures
        s == (SerialSettings {
            baud: config.bps,
            data_bits: 8,
            parity: false,
            stop_bits: 1,
            flow_control: false,
        }),
{
    SerialSettings { baud: config.bps, data_bits: 8, parity: false, stop_bits: 1, flow_control: false }
}

} // verus!
