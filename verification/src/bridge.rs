//! The bridge: what it knows of the devices, and what it answers to either side.
//!
//! The Caseta side sends messages, the HomeCore side sends commands. The session
//! with the Caseta bridge is set up again whenever it ends.

use crate::config::{CasetaConfig, DeviceKind};
use crate::device::DeviceEntry;
use crate::double::Double;
use crate::json::{
    bool_under, double_under, f64_under, first_under, json_view, negative_under, str_under,
    text_under, truth_under, unsigned_under, Json, JsonNumber, JsonView,
};
use crate::lip::{DeviceAction, LipMessage, OccupancyState, OutputAction};
use crate::text::{decimal, numeral, same};
use std::collections::HashMap;
use vstd::hash_map::StringHashMap;
use vstd::prelude::*;

verus! {

broadcast use {vstd::string::group_string_axioms, vstd::std_specs::hash::group_hash_axioms};

// ---------------------------------------------------------------------------
// The registry
// ---------------------------------------------------------------------------

/// The devices by integration ID. Where several have one ID, the last stands.
pub open spec fn devices_by_id(entries: Seq<DeviceEntry>) -> Map<u32, DeviceEntry>
    decreases entries.len(),
{
    if entries.len() == 0 {
        Map::empty()
    } else {
        devices_by_id(entries.drop_last()).insert(
            entries.last().config.integration_id,
            entries.last(),
        )
    }
}

/// The integration IDs by HomeCore name. Where several devices have one name, the
/// last stands.
pub open spec fn ids_by_name(entries: Seq<DeviceEntry>) -> Map<Seq<char>, u32>
    decreases entries.len(),
{
    if entries.len() == 0 {
        Map::empty()
    } else {
        ids_by_name(entries.drop_last()).insert(
            entries.last().hc_id@,
            entries.last().config.integration_id,
        )
    }
}

/// Whether `order` names each of `ids` once.
pub open spec fn is_walk(order: Seq<u32>, ids: Set<u32>) -> bool {
    &&& order.no_duplicates()
    &&& order.to_set() == ids
}

/// The fade time of commands for a HomeCore name.
pub open spec fn command_fade(
    devices: Map<u32, DeviceEntry>,
    ids: Map<Seq<char>, u32>,
    caseta: CasetaConfig,
    hc_id: Seq<char>,
) -> Option<Double> {
    if ids.contains_key(hc_id) {
        Some(devices[ids[hc_id]].config.fade(caseta.default_fade_secs))
    } else {
        None
    }
}

/// The devices that the plugin serves, and how it reaches them.
pub struct Bridge {
    devices: HashMap<u32, DeviceEntry>,
    hc_to_id: StringHashMap<u32>,
    caseta_cfg: CasetaConfig,
}

impl Bridge {
    /// The devices by integration ID.
    pub closed spec fn devices(&self) -> Map<u32, DeviceEntry> {
        self.devices@
    }

    /// The integration IDs by HomeCore name.
    pub closed spec fn ids(&self) -> Map<Seq<char>, u32> {
        self.hc_to_id@
    }

    /// How the Caseta bridge is reached.
    pub closed spec fn caseta(&self) -> CasetaConfig {
        self.caseta_cfg
    }

    /// Every name leads to a device, and every device is held under its own
    /// integration ID.
    #[verifier::type_invariant]
    spec fn names_lead_to_devices(self) -> bool {
        &&& forall|name: Seq<char>| #[trigger]
            self.hc_to_id@.contains_key(name) ==> self.devices@.contains_key(self.hc_to_id@[name])
        &&& forall|id: u32| #[trigger]
            self.devices@.contains_key(id) ==> self.devices@[id].config.integration_id == id
    }

    /// Registers the devices.
    pub fn new(devices: Vec<DeviceEntry>, caseta_cfg: CasetaConfig) -> (bridge: Bridge)
        ensures
            bridge.devices() == devices_by_id(devices@),
            bridge.ids() == ids_by_name(devices@),
            bridge.caseta() == caseta_cfg,
    {
        let mut dev_map: HashMap<u32, DeviceEntry> = HashMap::new();
        let mut hc_map: StringHashMap<u32> = StringHashMap::new();
        let ghost entries = devices@;
        for dev in it: devices
            invariant
                it.seq() == entries,
                dev_map@ == devices_by_id(entries.take(it.index())),
                hc_map@ == ids_by_name(entries.take(it.index())),
                forall|name: Seq<char>| #[trigger]
                    hc_map@.contains_key(name) ==> dev_map@.contains_key(hc_map@[name]),
                forall|id: u32| #[trigger]
                    dev_map@.contains_key(id) ==> dev_map@[id].config.integration_id == id,
        {
            assert(entries.take(it.index() + 1).drop_last() =~= entries.take(it.index()));
            hc_map.insert(dev.hc_id.clone(), dev.config.integration_id);
            dev_map.insert(dev.config.integration_id, dev);
        }
        assert(entries.take(entries.len() as int) =~= entries);
        Bridge { devices: dev_map, hc_to_id: hc_map, caseta_cfg }
    }

    /// The device with an integration ID.
    pub fn device(&self, integration_id: u32) -> (found: Option<&DeviceEntry>)
        ensures
            match found {
                Some(dev) => {
                    &&& self.devices().contains_key(integration_id)
                    &&& *dev == self.devices()[integration_id]
                },
                None => !self.devices().contains_key(integration_id),
            },
    {
        self.devices.get(&integration_id)
    }

    /// The device that commands for a HomeCore name go to.
    pub fn command_target(&self, hc_id: &str) -> (found: Option<&DeviceEntry>)
        ensures
            match found {
                Some(dev) => {
                    &&& self.ids().contains_key(hc_id@)
                    &&& *dev == self.devices()[self.ids()[hc_id@]]
                    &&& dev.config.integration_id == self.ids()[hc_id@]
                },
                None => !self.ids().contains_key(hc_id@),
            },
    {
        proof {
            use_type_invariant(self);
        }
        match self.hc_to_id.get(hc_id) {
            Some(integration_id) => self.devices.get(integration_id),
            None => None,
        }
    }

    /// The fade time of commands for a HomeCore name: that of the device itself
    /// where it has one, and otherwise the bridge's default.
    pub fn command_fade_secs(&self, hc_id: &str) -> (found: Option<Double>)
        ensures
            match found {
                Some(secs) => {
                    &&& self.ids().contains_key(hc_id@)
                    &&& secs == match self.devices()[self.ids()[hc_id@]].config.fade_secs {
                        Some(own) => own,
                        None => self.caseta().default_fade_secs,
                    }
                },
                None => !self.ids().contains_key(hc_id@),
            },
            found == command_fade(self.devices(), self.ids(), self.caseta(), hc_id@),
    {
        match self.command_target(hc_id) {
            Some(dev) => Some(dev.config.fade_or(self.caseta_cfg.default_fade_secs)),
            None => None,
        }
    }

    /// The integration IDs of all devices, each once, in no particular order.
    pub fn device_ids(&self) -> (order: Vec<u32>)
        ensures
            is_walk(order@, self.devices().dom()),
    {
        let mut order: Vec<u32> = Vec::new();
        let ghost keys = vstd::std_specs::iter::IteratorSpec::remaining(&self.devices.keys()).unref();
        for id in it: self.devices.keys()
            invariant
                order@ == keys.take(it.index()),
                it.seq().unref() == keys,
        {
            order.push(*id);
            assert(order@ =~= keys.take(it.index() + 1));
        }
        assert(order@ =~= keys);
        order
    }

    /// How the Caseta bridge is reached.
    pub fn caseta_config(&self) -> (cfg: &CasetaConfig)
        ensures
            *cfg == self.caseta(),
    {
        &self.caseta_cfg
    }
}

// ---------------------------------------------------------------------------
// Messages from the Caseta bridge
// ---------------------------------------------------------------------------

/// What to do about a message.
///
/// A level or an occupancy is first translated into the state that the device
/// has in HomeCore; [`Bridge::publish_translated`] takes it from there.
#[derive(Debug, PartialEq, Eq)]
pub enum LipReaction {
    Ignore,
    TranslateLevel { integration_id: u32, value: Double },
    TranslateOccupancy { integration_id: u32, occupied: bool },
    /// Publish a part of a device's state.
    PublishPartial { hc_id: String, patch: Json },
}

/// The content of a [`LipReaction`].
pub enum LipReactionView {
    Ignore,
    TranslateLevel { integration_id: u32, value: Double },
    TranslateOccupancy { integration_id: u32, occupied: bool },
    PublishPartial { hc_id: Seq<char>, patch: JsonView },
}

impl View for LipReaction {
    type V = LipReactionView;

    open spec fn view(&self) -> LipReactionView {
        match self {
            LipReaction::Ignore => LipReactionView::Ignore,
            LipReaction::TranslateLevel { integration_id, value } => {
                LipReactionView::TranslateLevel { integration_id: *integration_id, value: *value }
            },
            LipReaction::TranslateOccupancy { integration_id, occupied } => {
                LipReactionView::TranslateOccupancy {
                    integration_id: *integration_id,
                    occupied: *occupied,
                }
            },
            LipReaction::PublishPartial { hc_id, patch } => {
                LipReactionView::PublishPartial { hc_id: hc_id@, patch: patch@ }
            },
        }
    }
}

/// The part of a remote's state that an event on one of its buttons changes.
pub open spec fn button_patch(component: u32, action: DeviceAction) -> JsonView {
    JsonView::Object(
        seq![
            ("button_"@ + numeral(component as nat), JsonView::String(action.event_name())),
        ],
    )
}

/// What to do about a message, with these devices.
///
/// Only a zone's level counts of what outputs report, button events count for
/// remotes only, and occupancy counts for occupancy sensors only.
pub open spec fn lip_reaction(devices: Map<u32, DeviceEntry>, msg: LipMessage) -> LipReactionView {
    match msg {
        LipMessage::Output { integration_id, action, value } => if action is ZoneLevel
            && devices.contains_key(integration_id) {
            LipReactionView::TranslateLevel { integration_id, value }
        } else {
            LipReactionView::Ignore
        },
        LipMessage::Device { integration_id, component, action } => if devices.contains_key(
            integration_id,
        ) && devices[integration_id].config.kind is Pico {
            LipReactionView::PublishPartial {
                hc_id: devices[integration_id].hc_id@,
                patch: button_patch(component, action),
            }
        } else {
            LipReactionView::Ignore
        },
        LipMessage::Group { integration_id, state } => if devices.contains_key(integration_id)
            && devices[integration_id].config.kind is OccupancySensor {
            LipReactionView::TranslateOccupancy { integration_id, occupied: state is Occupied }
        } else {
            LipReactionView::Ignore
        },
        LipMessage::Error(_) => LipReactionView::Ignore,
        LipMessage::Prompt => LipReactionView::Ignore,
        LipMessage::Unknown(_) => LipReactionView::Ignore,
    }
}

/// What is published, and under which name, when the translation for a device gave
/// `state`.
pub open spec fn publication(
    devices: Map<u32, DeviceEntry>,
    integration_id: u32,
    state: Option<Json>,
) -> Option<(Seq<char>, Json)> {
    match state {
        Some(state) => if devices.contains_key(integration_id) {
            Some((devices[integration_id].hc_id@, state))
        } else {
            None
        },
        None => None,
    }
}

fn make_button_patch(component: u32, action: DeviceAction) -> (patch: Json)
    ensures
        patch@ == button_patch(component, action),
{
    let mut attr = "button_".to_owned();
    attr.append(decimal(component as u64).as_str());
    let mut entries: Vec<(String, Json)> = Vec::new();
    entries.push((attr, Json::String(action.event().to_owned())));
    let patch = Json::Object(entries);
    proof {
        reveal_with_fuel(json_view, 2);
    }
    assert(patch@->Object_0 =~= button_patch(component, action)->Object_0);
    patch
}

impl Bridge {
    /// Decides what to do about a message.
    pub fn handle_lip_message(&self, msg: &LipMessage) -> (reaction: LipReaction)
        ensures
            reaction@ == lip_reaction(self.devices(), *msg),
    {
        match msg {
            LipMessage::Output { integration_id, action, value } => {
                if *action != OutputAction::ZoneLevel {
                    return LipReaction::Ignore;
                }
                match self.device(*integration_id) {
                    Some(_) => LipReaction::TranslateLevel {
                        integration_id: *integration_id,
                        value: *value,
                    },
                    None => LipReaction::Ignore,
                }
            },
            LipMessage::Device { integration_id, component, action } => {
                match self.device(*integration_id) {
                    Some(dev) => {
                        if !dev.is_button_device() {
                            return LipReaction::Ignore;
                        }
                        LipReaction::PublishPartial {
                            hc_id: dev.hc_id.clone(),
                            patch: make_button_patch(*component, *action),
                        }
                    },
                    None => LipReaction::Ignore,
                }
            },
            LipMessage::Group { integration_id, state } => {
                match self.device(*integration_id) {
                    Some(dev) => {
                        if !dev.is_group() {
                            return LipReaction::Ignore;
                        }
                        LipReaction::TranslateOccupancy {
                            integration_id: *integration_id,
                            occupied: *state == OccupancyState::Occupied,
                        }
                    },
                    None => LipReaction::Ignore,
                }
            },
            LipMessage::Error(_) => LipReaction::Ignore,
            LipMessage::Prompt => LipReaction::Ignore,
            LipMessage::Unknown(_) => LipReaction::Ignore,
        }
    }

    /// The state to publish, and the name to publish it under, when the
    /// translation for a device gave `state`.
    pub fn publish_translated(&self, integration_id: u32, state: Option<Json>) -> (published: Option<
        (String, Json),
    >)
        ensures
            match published {
                Some((hc_id, sent)) => {
                    &&& self.devices().contains_key(integration_id)
                    &&& hc_id@ == self.devices()[integration_id].hc_id@
                    &&& state == Some(sent)
                },
                None => state is None || !self.devices().contains_key(integration_id),
            },
            match published {
                Some((hc_id, sent)) => publication(self.devices(), integration_id, state) == Some(
                    (hc_id@, sent),
                ),
                None => publication(self.devices(), integration_id, state) is None,
            },
    {
        match (self.device(integration_id), state) {
            (Some(dev), Some(state)) => Some((dev.hc_id.clone(), state)),
            _ => None,
        }
    }
}

// ---------------------------------------------------------------------------
// Commands from HomeCore
// ---------------------------------------------------------------------------

/// An object with the one member `on`.
pub open spec fn on_state(on: bool) -> JsonView {
    JsonView::Object(seq![("on"@, JsonView::Bool(on))])
}

/// The state that the member `on` of a command asks for.
pub open spec fn asked_on(cmd: JsonView) -> Option<JsonView> {
    match truth_under(cmd, "on"@) {
        Some(on) => Some(on_state(on)),
        None => None,
    }
}

/// The state that a device of a kind is taken to have once a command went out,
/// before the bridge has confirmed it.
///
/// A brightness above zero means on, a speed other than `off` means on, and
/// either goes before a plain `on`. Of shades, remotes and occupancy sensors
/// nothing is presumed.
pub open spec fn presumed_state(cmd: JsonView, kind: DeviceKind) -> Option<JsonView> {
    match kind {
        DeviceKind::Dimmer => match double_under(cmd, "brightness_pct"@) {
            Some(b) => Some(
                JsonView::Object(
                    seq![
                        ("on"@, JsonView::Bool(b.positive())),
                        ("brightness_pct"@, JsonView::Number(JsonNumber::Double(b))),
                    ],
                ),
            ),
            None => asked_on(cmd),
        },
        DeviceKind::Switch => asked_on(cmd),
        DeviceKind::FanControl => match text_under(cmd, "speed"@) {
            Some(speed) => Some(
                JsonView::Object(
                    seq![
                        ("on"@, JsonView::Bool(speed != "off"@)),
                        ("speed"@, JsonView::String(speed)),
                    ],
                ),
            ),
            None => asked_on(cmd),
        },
        DeviceKind::Shade => None,
        DeviceKind::Pico => None,
        DeviceKind::OccupancySensor => None,
    }
}

fn make_asked_on(cmd: &Json) -> (state: Option<Json>)
    ensures
        match state {
            Some(state) => asked_on(cmd@) == Some(state@),
            None => asked_on(cmd@) is None,
        },
{
    match bool_under(cmd, "on") {
        Some(on) => {
            let mut entries: Vec<(String, Json)> = Vec::new();
            entries.push(("on".to_owned(), Json::Bool(on)));
            let state = Json::Object(entries);
            proof {
                reveal_with_fuel(json_view, 2);
            }
            assert(state@->Object_0 =~= on_state(on)->Object_0);
            Some(state)
        },
        None => None,
    }
}

fn make_pair(on: bool, key: &str, value: Json) -> (state: Json)
    ensures
        state@ == JsonView::Object(seq![("on"@, JsonView::Bool(on)), (key@, value@)]),
{
    let mut entries: Vec<(String, Json)> = Vec::new();
    entries.push(("on".to_owned(), Json::Bool(on)));
    entries.push((key.to_owned(), value));
    let state = Json::Object(entries);
    proof {
        reveal_with_fuel(json_view, 2);
    }
    assert(state@->Object_0 =~= seq![("on"@, JsonView::Bool(on)), (key@, value@)]);
    state
}

/// The state that a device is taken to have once a command went out.
///
/// A dimmer that is asked for a whole brightness is taken to be on exactly if
/// that is above zero.
pub fn optimistic_state(cmd: &Json, dev: &DeviceEntry) -> (state: Option<Json>)
    ensures
        match state {
            Some(state) => presumed_state(cmd@, dev.config.kind) == Some(state@),
            None => presumed_state(cmd@, dev.config.kind) is None,
        },
        dev.config.kind is Dimmer ==> (unsigned_under(cmd@, "brightness_pct"@) matches Some(n)
            ==> (state matches Some(state) && truth_under(state@, "on"@) == Some(n > 0))),
        dev.config.kind is Dimmer ==> (negative_under(cmd@, "brightness_pct"@) matches Some(n)
            ==> (state matches Some(state) && truth_under(state@, "on"@) == Some(n > 0))),
{
    proof {
        reveal_with_fuel(first_under, 2);
    }
    match dev.config.kind {
        DeviceKind::Dimmer => match f64_under(cmd, "brightness_pct") {
            Some(b) => Some(
                make_pair(b.is_positive(), "brightness_pct", Json::Number(JsonNumber::Double(b))),
            ),
            None => make_asked_on(cmd),
        },
        DeviceKind::Switch => make_asked_on(cmd),
        DeviceKind::FanControl => match str_under(cmd, "speed") {
            Some(speed) => Some(
                make_pair(!same(speed, "off"), "speed", Json::String(speed.to_owned())),
            ),
            None => make_asked_on(cmd),
        },
        _ => None,
    }
}

/// What a command leads to.
#[derive(Debug, PartialEq, Eq)]
pub enum CommandAction<'a> {
    /// Send a line to the Caseta bridge.
    Send(String),
    /// Publish a part of a device's state as the answer to the command.
    PublishForCommand { hc_id: String, state: Json, command: &'a Json, origin: String },
}

/// The content of a [`CommandAction`].
pub enum CommandActionView {
    Send(Seq<char>),
    PublishForCommand { hc_id: Seq<char>, state: JsonView, command: JsonView, origin: Seq<char> },
}

impl<'a> View for CommandAction<'a> {
    type V = CommandActionView;

    open spec fn view(&self) -> CommandActionView {
        match self {
            CommandAction::Send(line) => CommandActionView::Send(line@),
            CommandAction::PublishForCommand { hc_id, state, command, origin } => {
                CommandActionView::PublishForCommand {
                    hc_id: hc_id@,
                    state: state@,
                    command: command@,
                    origin: origin@,
                }
            },
        }
    }
}

/// What a command to a device leads to when it translates to `lines`: these are
/// sent in order, and then the presumed state is published as the answer to the
/// command, if there is one.
pub open spec fn command_actions(dev: DeviceEntry, cmd: JsonView, lines: Seq<String>) -> Seq<
    CommandActionView,
> {
    lines.map_values(|line: String| CommandActionView::Send(line@)) + match presumed_state(
        cmd,
        dev.config.kind,
    ) {
        Some(state) => seq![
            CommandActionView::PublishForCommand {
                hc_id: dev.hc_id@,
                state,
                command: cmd,
                origin: "caseta"@,
            },
        ],
        None => Seq::empty(),
    }
}

impl Bridge {
    /// Decides what a command leads to, when it translates to `lines` for the
    /// device that it goes to. A command for an unknown name leads to nothing.
    pub fn handle_homecore_command<'a>(
        &self,
        hc_id: &str,
        payload: &'a Json,
        lines: Vec<String>,
    ) -> (actions: Vec<CommandAction<'a>>)
        ensures
            actions@.map_values(|action: CommandAction<'a>| action@) == if self.ids().contains_key(
                hc_id@,
            ) {
                command_actions(self.devices()[self.ids()[hc_id@]], payload@, lines@)
            } else {
                Seq::<CommandActionView>::empty()
            },
    {
        let mut actions: Vec<CommandAction<'a>> = Vec::new();
        let dev = match self.command_target(hc_id) {
            Some(dev) => dev,
            None => {
                assert(actions@.map_values(|action: CommandAction<'a>| action@) =~= Seq::empty());
                return actions;
            },
        };
        for i in 0..lines.len()
            invariant
                actions@.len() == i,
                forall|k: int|
                    0 <= k < i ==> (#[trigger] actions@[k])@ == CommandActionView::Send(lines@[k]@),
        {
            actions.push(CommandAction::Send(lines[i].clone()));
        }
        if let Some(state) = optimistic_state(payload, dev) {
            actions.push(
                CommandAction::PublishForCommand {
                    hc_id: dev.hc_id.clone(),
                    state,
                    command: payload,
                    origin: "caseta".to_owned(),
                },
            );
        }
        assert(actions@.map_values(|action: CommandAction<'a>| action@) =~= command_actions(
            *dev,
            payload@,
            lines@,
        ));
        actions
    }
}

} // verus!
