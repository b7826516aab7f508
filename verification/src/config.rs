//! The configuration of the plugin, and what stands where it leaves something
//! out.

use crate::double::{lemma_one_bits, nearest_double_bits, Double, ONE_BITS};
use vstd::prelude::*;

verus! {

/// The whole configuration.
#[derive(Debug, Clone)]
pub struct Config {
    pub homecore: HomecoreConfig,
    pub caseta: CasetaConfig,
    pub devices: Vec<DeviceConfig>,
}

/// Why a configuration could not be loaded.
#[derive(Debug, PartialEq, Eq)]
pub enum ConfigError {
    /// The file cannot be read.
    CannotRead { path: String, reason: String },
    /// The text of the file is no configuration.
    CannotParse { path: String, reason: String },
}

impl ConfigError {
    /// What the operator is told.
    pub open spec fn explanation(self) -> Seq<char> {
        match self {
            ConfigError::CannotRead { path, reason } => "Cannot read config "@ + path@ + ": "@
                + reason@,
            ConfigError::CannotParse { path, reason } => "Config parse error in "@ + path@ + ": "@
                + reason@,
        }
    }

    /// What the operator is told.
    pub fn to_string(&self) -> (text: String)
        ensures
            text@ == self.explanation(),
    {
        match self {
            ConfigError::CannotRead { path, reason } => located(
                "Cannot read config ",
                path,
                reason,
            ),
            ConfigError::CannotParse { path, reason } => located(
                "Config parse error in ",
                path,
                reason,
            ),
        }
    }
}

fn located(what: &str, path: &String, reason: &String) -> (text: String)
    ensures
        text@ == what@ + path@ + ": "@ + reason@,
{
    let mut text = what.to_owned();
    text.append(path.as_str());
    text.append(": ");
    text.append(reason.as_str());
    text
}

// ---------------------------------------------------------------------------
// HomeCore broker connection
// ---------------------------------------------------------------------------

/// How to reach the HomeCore broker, and as whom.
#[derive(Debug, Clone)]
pub struct HomecoreConfig {
    pub broker_host: String,
    pub broker_port: u16,
    pub plugin_id: String,
    pub password: String,
}

/// The broker's host where none is configured.
pub fn default_broker_host() -> (host: String)
    ensures
        host@ == "127.0.0.1"@,
{
    "127.0.0.1".to_owned()
}

/// The broker's port where none is configured.
pub fn default_broker_port() -> (port: u16)
    ensures
        port == 1883,
{
    1883
}

/// The plugin's ID where none is configured.
pub fn default_plugin_id() -> (id: String)
    ensures
        id@ == "plugin.caseta"@,
{
    "plugin.caseta".to_owned()
}

// ---------------------------------------------------------------------------
// Caseta Pro bridge connection
// ---------------------------------------------------------------------------

/// How to reach the Caseta Pro bridge.
#[derive(Debug, Clone)]
pub struct CasetaConfig {
    pub host: String,
    pub port: u16,
    pub username: String,
    pub password: String,
    /// Default fade time for dimmers (seconds).
    pub default_fade_secs: Double,
    /// Delay between reconnection attempts (seconds).
    pub reconnect_delay_secs: u64,
}

/// The bridge's port where none is configured.
pub fn default_lip_port() -> (port: u16)
    ensures
        port == 23,
{
    23
}

/// The user name where none is configured.
pub fn default_username() -> (name: String)
    ensures
        name@ == "lutron"@,
{
    "lutron".to_owned()
}

/// The password where none is configured.
pub fn default_password() -> (password: String)
    ensures
        password@ == "integration"@,
{
    "integration".to_owned()
}

/// The fade time where none is configured: one second.
pub fn default_fade_secs() -> (secs: Double)
    ensures
        secs.bits == nearest_double_bits(1),
        secs.bits == ONE_BITS,
{
    proof {
        lemma_one_bits();
    }
    Double { bits: ONE_BITS }
}

/// The delay between reconnection attempts where none is configured.
pub fn default_reconnect_delay_secs() -> (secs: u64)
    ensures
        secs == 5,
{
    5
}

// ---------------------------------------------------------------------------
// Device config
// ---------------------------------------------------------------------------

/// The kinds of Caseta devices.
#[derive(Debug, Clone, Copy, PartialEq, Eq, Structural)]
pub enum DeviceKind {
    /// Dimmable light: brightness 0-100 with optional fade.
    Dimmer,
    /// Non-dimmable load: on/off only.
    Switch,
    /// Motorized shade: position 0-100.
    Shade,
    /// Ceiling fan control: speed levels (off/low/medium/medium-high/high).
    FanControl,
    /// Pico wireless remote: publishes button events only (read-only).
    Pico,
    /// Occupancy sensor: publishes occupied/vacant (read-only).
    OccupancySensor,
}

/// A device of the configuration.
#[derive(Debug, Clone)]
pub struct DeviceConfig {
    pub integration_id: u32,
    pub name: String,
    pub kind: DeviceKind,
    pub area: Option<String>,
    /// Per-device fade time override (seconds).
    pub fade_secs: Option<Double>,
    /// Invert shade position: false is Lutron native (0 open, 100 closed), true
    /// is inverted (0 closed, 100 open).
    pub invert_position: bool,
    /// Pico button component numbers.
    pub buttons: Vec<u32>,
}

impl DeviceConfig {
    /// The fade time of the device where the bridge's default is `common`.
    pub open spec fn fade(self, common: Double) -> Double {
        match self.fade_secs {
            Some(own) => own,
            None => common,
        }
    }

    /// The fade time of the device: its own where it has one, and otherwise the
    /// bridge's default.
    pub fn fade_or(&self, default_fade_secs: Double) -> (secs: Double)
        ensures
            secs == match self.fade_secs {
                Some(own) => own,
                None => default_fade_secs,
            },
            secs == self.fade(default_fade_secs),
    {
        match self.fade_secs {
            Some(own) => own,
            None => default_fade_secs,
        }
    }
}

} // verus!
