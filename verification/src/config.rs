//! Device configuration: the access point used for setup, the mDNS names, and
//! the valves with their pins. The values come from a TOML file that the
//! application parses; this module holds the model and the defaults.

use vstd::prelude::*;
use vstd::string::*;

verus! {

/// The setup access point that is started when no home WiFi can be joined.
#[derive(Clone)]
pub struct Ap {
    pub ssid: String,
    pub password: String,
}

impl Default for Ap {
    /// `ESPrinkler-Setup`, with password `sprinkler`.
    fn default() -> (ap: Self)
        ensures
            ap.ssid@ == "ESPrinkler-Setup"@,
            ap.password@ == "sprinkler"@,
    {
        Ap {
            ssid: <String as StringExecFns>::from_str("ESPrinkler-Setup"),
            password: <String as StringExecFns>::from_str("sprinkler"),
        }
    }
}

/// The names under which the device advertises itself with mDNS.
#[derive(Clone)]
pub struct Mdns {
    pub hostname: String,
    pub service: String,
}

impl Default for Mdns {
    /// Host `esprinkler` (`esprinkler.local`), service `_sprinkler`.
    fn default() -> (m: Self)
        ensures
            m.hostname@ == "esprinkler"@,
            m.service@ == "_sprinkler"@,
    {
        Mdns {
            hostname: <String as StringExecFns>::from_str("esprinkler"),
            service: <String as StringExecFns>::from_str("_sprinkler"),
        }
    }
}

/// One configured valve.
#[derive(Clone)]
pub struct Valve {
    pub name: String,
    /// "ac" (relay, single pin) or "latching" (solenoid, open/close pins).
    pub kind: String,
    pub pin: Option<u8>,
    pub active_low: bool,
    pub open_pin: Option<u8>,
    pub close_pin: Option<u8>,
    pub pulse_ms: u32,
}

/// Default pulse length, in milliseconds, of a latching valve.
pub fn default_pulse_ms() -> (ms: u32)
    ensures
        ms == 80,
{
    80
}

/// The configuration file as parsed, each section defaulted when absent.
pub struct Raw {
    pub ap: Ap,
    pub mdns: Mdns,
    pub valve: Vec<Valve>,
}

/// The device configuration.
pub struct Config {
    pub ap: Ap,
    pub mdns: Mdns,
    pub valves: Vec<Valve>,
}

/// The configuration for the outcome of parsing the configuration file: what
/// was parsed, or, when the file could not be parsed (`None`), the default
/// access point and mDNS names and no valves.
pub fn load_from(parsed: Option<Raw>) -> (cfg: Config)
    ensures
        parsed matches Some(raw) ==> cfg.ap == raw.ap && cfg.mdns == raw.mdns && cfg.valves@
            == raw.valve@,
        parsed is None ==> {
            &&& cfg.ap.ssid@ == "ESPrinkler-Setup"@
            &&& cfg.ap.password@ == "sprinkler"@
            &&& cfg.mdns.hostname@ == "esprinkler"@
            &&& cfg.mdns.service@ == "_sprinkler"@
            &&& cfg.valves@.len() == 0
        },
{
    match parsed {
        Some(raw) => Config { ap: raw.ap, mdns: raw.mdns, valves: raw.valve },
        None => Config { ap: Ap::default(), mdns: Mdns::default(), valves: Vec::new() },
    }
}

} // verus!
