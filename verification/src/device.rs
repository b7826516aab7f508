//! Devices as HomeCore sees them.

use crate::config::{DeviceConfig, DeviceKind};
use vstd::prelude::*;

verus! {

/// A configured device, and the name that it has in HomeCore.
#[derive(Debug)]
pub struct DeviceEntry {
    pub hc_id: String,
    pub config: DeviceConfig,
}

impl DeviceKind {
    /// What HomeCore calls a device of this kind.
    pub open spec fn device_type(self) -> Seq<char> {
        match self {
            DeviceKind::Dimmer => "light"@,
            DeviceKind::Switch => "switch"@,
            DeviceKind::Shade => "cover"@,
            DeviceKind::FanControl => "fan"@,
            DeviceKind::Pico => "button"@,
            DeviceKind::OccupancySensor => "occupancy_sensor"@,
        }
    }

    /// Whether a device of this kind is a load with a level. The others only
    /// report.
    pub open spec fn has_level(self) -> bool {
        self is Dimmer || self is Switch || self is Shade || self is FanControl
    }
}

/// Each kind has its own type in HomeCore, and the loads are dimmers, switches,
/// shades and fans.
pub proof fn law_kinds_have_their_types(kind: DeviceKind)
    ensures
        match kind {
            DeviceKind::Dimmer => kind.device_type() == "light"@ && kind.has_level(),
            DeviceKind::Switch => kind.device_type() == "switch"@ && kind.has_level(),
            DeviceKind::Shade => kind.device_type() == "cover"@ && kind.has_level(),
            DeviceKind::FanControl => kind.device_type() == "fan"@ && kind.has_level(),
            DeviceKind::Pico => kind.device_type() == "button"@ && !kind.has_level(),
            DeviceKind::OccupancySensor => kind.device_type() == "occupancy_sensor"@
                && !kind.has_level(),
        },
{
}

impl DeviceEntry {
    /// What HomeCore calls a device of this kind.
    pub fn homecore_device_type(&self) -> (name: &'static str)
        ensures
            name@ == self.config.kind.device_type(),
    {
        match self.config.kind {
            DeviceKind::Dimmer => "light",
            DeviceKind::Switch => "switch",
            DeviceKind::Shade => "cover",
            DeviceKind::FanControl => "fan",
            DeviceKind::Pico => "button",
            DeviceKind::OccupancySensor => "occupancy_sensor",
        }
    }

    /// Whether the device is a load with a level.
    pub fn is_output(&self) -> (yes: bool)
        ensures
            yes == self.config.kind.has_level(),
    {
        match self.config.kind {
            DeviceKind::Dimmer => true,
            DeviceKind::Switch => true,
            DeviceKind::Shade => true,
            DeviceKind::FanControl => true,
            DeviceKind::Pico => false,
            DeviceKind::OccupancySensor => false,
        }
    }

    /// Whether the device publishes button events.
    pub fn is_button_device(&self) -> (yes: bool)
        ensures
            yes == (self.config.kind is Pico),
    {
        self.config.kind == DeviceKind::Pico
    }

    /// Whether the device publishes occupancy.
    pub fn is_group(&self) -> (yes: bool)
        ensures
            yes == (self.config.kind is OccupancySensor),
    {
        self.config.kind == DeviceKind::OccupancySensor
    }
}

} // verus!
