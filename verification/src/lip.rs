//! Messages of the Lutron Integration Protocol.

use crate::double::Double;
use vstd::prelude::*;

verus! {

broadcast use vstd::string::group_string_axioms;

/// What an output reports.
#[derive(Debug, Clone, Copy, PartialEq, Eq, Structural)]
pub enum OutputAction {
    /// The level of the zone.
    ZoneLevel,
    /// Anything else.
    Other,
}

/// What happened to a button.
#[derive(Debug, Clone, Copy, PartialEq, Eq, Structural)]
pub enum DeviceAction {
    Press,
    Release,
    Hold,
}

impl DeviceAction {
    /// What HomeCore calls the event.
    pub open spec fn event_name(self) -> Seq<char> {
        match self {
            DeviceAction::Press => "press"@,
            DeviceAction::Release => "release"@,
            DeviceAction::Hold => "hold"@,
        }
    }

    /// What HomeCore calls the event.
    pub fn event(&self) -> (name: &'static str)
        ensures
            name@ == self.event_name(),
    {
        match self {
            DeviceAction::Press => "press",
            DeviceAction::Release => "release",
            DeviceAction::Hold => "hold",
        }
    }
}

/// What an occupancy group reports.
#[derive(Debug, Clone, Copy, PartialEq, Eq, Structural)]
pub enum OccupancyState {
    Occupied,
    Vacant,
}

/// A message from the bridge.
#[derive(Debug)]
pub enum LipMessage {
    Output { integration_id: u32, action: OutputAction, value: Double },
    Device { integration_id: u32, component: u32, action: DeviceAction },
    Group { integration_id: u32, state: OccupancyState },
    /// The bridge refused a command.
    Error(String),
    Prompt,
    Unknown(String),
}

} // verus!
