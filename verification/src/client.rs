//! Configuration and state of the telemetry client device.
//!
//! The client wakes on a timer, reads its sensor, stamps the reading with a
//! running event number, and sends it — encoded and framed with
//! [`crate::wire::frame_payload`] — to the collecting server. The sensor,
//! the clock and the connection live with the unverified runtime; this
//! module holds the configuration and the event numbering.

use vstd::prelude::*;

verus! {

/// Where and how often the client reports.
pub struct Config {
    device_id: u32,
    timer_sec: u64,
    address: String,
    port: String,
}

impl Config {
    /// The configured device identifier.
    pub closed spec fn spec_device_id(&self) -> u32 {
        self.device_id
    }

    /// The configured reporting period, in seconds.
    pub closed spec fn spec_timer_sec(&self) -> u64 {
        self.timer_sec
    }

    /// The configured server address.
    pub closed spec fn spec_address(&self) -> Seq<char> {
        self.address@
    }

    /// The configured server port.
    pub closed spec fn spec_port(&self) -> Seq<char> {
        self.port@
    }

    /// Builds a configuration from its four settings.
    pub fn build(device_id: u32, timer_sec: u64, address: String, port: String) -> (c: Self)
        ensures
            c.spec_device_id() == device_id,
            c.spec_timer_sec() == timer_sec,
            c.spec_address() == address@,
            c.spec_port() == port@,
    {
        Config { device_id, timer_sec, address, port }
    }

    /// The device identifier.
    pub fn device_id(&self) -> (r: u32)
        ensures
            r == self.spec_device_id(),
    {
        self.device_id
    }

    /// The reporting period, in seconds.
    pub fn timer_sec(&self) -> (r: u64)
        ensures
            r == self.spec_timer_sec(),
    {
        self.timer_sec
    }

    /// The server address.
    pub fn address(&self) -> (r: &String)
        ensures
            r@ == self.spec_address(),
    {
        &self.address
    }

    /// The server port.
    pub fn port(&self) -> (r: &String)
        ensures
            r@ == self.spec_port(),
    {
        &self.port
    }
}

/// The reporting device: its configuration and the number it will give the
/// next telemetry event.
pub struct ESP {
    config: Config,
    event_id: u64,
}

impl ESP {
    /// The configuration the device was built with.
    pub closed spec fn spec_config(&self) -> Config {
        self.config
    }

    /// The number the next event will carry.
    pub closed spec fn spec_event_id(&self) -> u64 {
        self.event_id
    }

    /// A new device, numbering its events from zero.
    pub fn build(config: Config) -> (e: Self)
        ensures
            e.spec_config() == config,
            e.spec_event_id() == 0,
    {
        ESP { config, event_id: 0 }
    }

    /// The device's configuration.
    pub fn config(&self) -> (r: &Config)
        ensures
            *r == self.spec_config(),
    {
        &self.config
    }

    /// The number the next event will carry.
    pub fn event_id(&self) -> (r: u64)
        ensures
            r == self.spec_event_id(),
    {
        self.event_id
    }

    /// Takes the next event number: each reading is stamped with a number
    /// one higher than the reading before it.
    pub fn next_event_id(&mut self) -> (r: u64)
        requires
            old(self).spec_event_id() < u64::MAX,
        ensures
            r == old(self).spec_event_id(),
            final(self).spec_event_id() == old(self).spec_event_id() + 1,
            final(self).spec_config() == old(self).spec_config(),
    {
        let id = self.event_id;
        self.event_id = self.event_id + 1;
        id
    }
}

} // verus!
