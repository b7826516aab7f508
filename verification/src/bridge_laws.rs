//! What holds of the bridge and its sessions.

use crate::bridge::{
    command_actions, command_fade, devices_by_id, ids_by_name, is_walk, lip_reaction,
    presumed_state, publication, CommandAction, CommandActionView, LipReaction, LipReactionView,
};
use crate::config::{CasetaConfig, DeviceKind};
use crate::device::DeviceEntry;
use crate::double::{law_the_nearest_double_keeps_the_sign, nearest_double_bits, Double};
use crate::json::{
    double_under, first_under, text_under, truth_under, Json, JsonNumber, JsonView,
};
use crate::lip::{DeviceAction, LipMessage, OccupancyState, OutputAction};
use crate::session::{
    announcement, announces, answers, asks, initial_queries, next_phase, query_of, Phase,
    SessionActionView, SessionEvent, KEEPALIVE_SECS,
};
use crate::text::numeral;
use vstd::prelude::*;

verus! {

broadcast use vstd::string::group_string_axioms;

// ---------------------------------------------------------------------------
// The registry
// ---------------------------------------------------------------------------

/// Every name that is known leads to a device, and every device is held under its
/// own integration ID.
pub proof fn law_names_lead_to_devices(entries: Seq<DeviceEntry>)
    ensures
        forall|name: Seq<char>| #[trigger]
            ids_by_name(entries).contains_key(name) ==> devices_by_id(entries).contains_key(
                ids_by_name(entries)[name],
            ),
        forall|id: u32| #[trigger]
            devices_by_id(entries).contains_key(id) ==> devices_by_id(
                entries,
            )[id].config.integration_id == id,
    decreases entries.len(),
{
    if entries.len() > 0 {
        let rest = entries.drop_last();
        law_names_lead_to_devices(rest);
        assert forall|name: Seq<char>| #[trigger] ids_by_name(entries).contains_key(name) implies
            devices_by_id(entries).contains_key(ids_by_name(entries)[name]) by {
            if name != entries.last().hc_id@ {
                assert(ids_by_name(rest).contains_key(name));
            }
        }
    }
}

/// The last device with an integration ID is the one that stands for it.
pub proof fn law_the_last_device_with_an_id_stands(entries: Seq<DeviceEntry>, k: int)
    requires
        0 <= k < entries.len(),
        forall|j: int|
            k < j < entries.len() ==> (#[trigger] entries[j]).config.integration_id
                != entries[k].config.integration_id,
    ensures
        devices_by_id(entries).contains_key(entries[k].config.integration_id),
        devices_by_id(entries)[entries[k].config.integration_id] == entries[k],
    decreases entries.len(),
{
    if k < entries.len() - 1 {
        law_the_last_device_with_an_id_stands(entries.drop_last(), k);
    }
}

/// The last device with a name is the one that the name leads to.
pub proof fn law_the_last_device_with_a_name_stands(entries: Seq<DeviceEntry>, k: int)
    requires
        0 <= k < entries.len(),
        forall|j: int|
            k < j < entries.len() ==> (#[trigger] entries[j]).hc_id@ != entries[k].hc_id@,
    ensures
        ids_by_name(entries).contains_key(entries[k].hc_id@),
        ids_by_name(entries)[entries[k].hc_id@] == entries[k].config.integration_id,
    decreases entries.len(),
{
    if k < entries.len() - 1 {
        law_the_last_device_with_a_name_stands(entries.drop_last(), k);
    }
}

/// Only configured devices are known.
pub proof fn law_only_configured_devices_are_known(entries: Seq<DeviceEntry>)
    ensures
        forall|id: u32| #[trigger]
            devices_by_id(entries).contains_key(id) ==> entries.contains(devices_by_id(entries)[id]),
        forall|name: Seq<char>| #[trigger]
            ids_by_name(entries).contains_key(name) ==> exists|k: int|
                0 <= k < entries.len() && (#[trigger] entries[k]).hc_id@ == name
                    && entries[k].config.integration_id == ids_by_name(entries)[name],
    decreases entries.len(),
{
    if entries.len() > 0 {
        let rest = entries.drop_last();
        law_only_configured_devices_are_known(rest);
        assert forall|id: u32| #[trigger] devices_by_id(entries).contains_key(id) implies
            entries.contains(devices_by_id(entries)[id]) by {
            if id == entries.last().config.integration_id {
                assert(entries[entries.len() - 1] == devices_by_id(entries)[id]);
            } else {
                assert(devices_by_id(rest).contains_key(id));
                let k = choose|k: int| 0 <= k < rest.len() && rest[k] == devices_by_id(rest)[id];
                assert(entries[k] == devices_by_id(entries)[id]);
            }
        }
        assert forall|name: Seq<char>| #[trigger] ids_by_name(entries).contains_key(name) implies
            exists|k: int|
            0 <= k < entries.len() && (#[trigger] entries[k]).hc_id@ == name
                && entries[k].config.integration_id == ids_by_name(entries)[name] by {
            if name == entries.last().hc_id@ {
                assert(entries[entries.len() - 1].hc_id@ == name);
            } else {
                assert(ids_by_name(rest).contains_key(name));
                let k = choose|k: int|
                    0 <= k < rest.len() && (#[trigger] rest[k]).hc_id@ == name
                        && rest[k].config.integration_id == ids_by_name(rest)[name];
                assert(entries[k].hc_id@ == name);
            }
        }
    }
}

// ---------------------------------------------------------------------------
// Messages and commands
// ---------------------------------------------------------------------------

/// The integration ID that a message speaks of.
pub open spec fn subject(msg: LipMessage) -> Option<u32> {
    match msg {
        LipMessage::Output { integration_id, .. } => Some(integration_id),
        LipMessage::Device { integration_id, .. } => Some(integration_id),
        LipMessage::Group { integration_id, .. } => Some(integration_id),
        _ => None,
    }
}

/// A message about an unknown device is ignored, and so is one about no device.
pub proof fn law_unknown_devices_are_ignored(devices: Map<u32, DeviceEntry>, msg: LipMessage)
    requires
        subject(msg) is None || !devices.contains_key(subject(msg)->0),
    ensures
        lip_reaction(devices, msg) is Ignore,
{
}

/// What follows a message concerns the device that the message speaks of. Button
/// events come from remotes only, and occupancy from occupancy sensors only.
pub proof fn law_reactions_concern_the_subject(devices: Map<u32, DeviceEntry>, msg: LipMessage)
    ensures
        match lip_reaction(devices, msg) {
            LipReactionView::Ignore => true,
            LipReactionView::TranslateLevel { integration_id, .. } => {
                &&& subject(msg) == Some(integration_id)
                &&& devices.contains_key(integration_id)
            },
            LipReactionView::TranslateOccupancy { integration_id, .. } => {
                &&& subject(msg) == Some(integration_id)
                &&& devices.contains_key(integration_id)
                &&& devices[integration_id].config.kind is OccupancySensor
            },
            LipReactionView::PublishPartial { hc_id, .. } => {
                &&& subject(msg) is Some
                &&& devices.contains_key(subject(msg)->0)
                &&& devices[subject(msg)->0].config.kind is Pico
                &&& devices[subject(msg)->0].hc_id@ == hc_id
            },
        },
{
}

/// Every part of a state that a message makes the bridge publish tells of one
/// button of a remote that it was pressed, released or held.
pub proof fn law_remotes_report_press_release_and_hold(
    devices: Map<u32, DeviceEntry>,
    msg: LipMessage,
)
    ensures
        lip_reaction(devices, msg) matches LipReactionView::PublishPartial { patch, .. } ==> {
            &&& patch is Object
            &&& patch->Object_0.len() == 1
            &&& msg is Device
            &&& patch->Object_0[0].0 == "button_"@ + numeral(msg->component as nat)
            &&& patch->Object_0[0].1 is String
            &&& {
                let event = patch->Object_0[0].1->String_0;
                event == "press"@ || event == "release"@ || event == "hold"@
            }
        },
{
}

/// The level that any known device reports, whatever its kind, is translated: for
/// that device, and with exactly the value that was reported.
pub proof fn law_levels_of_every_known_device_are_translated(
    devices: Map<u32, DeviceEntry>,
    integration_id: u32,
    value: Double,
    reaction: LipReaction,
)
    requires
        devices.contains_key(integration_id),
        reaction@ == lip_reaction(
            devices,
            LipMessage::Output { integration_id, action: OutputAction::ZoneLevel, value },
        ),
    ensures
        reaction == (LipReaction::TranslateLevel { integration_id, value }),
{
}

/// Of what outputs report, anything but a level is ignored, and so is the level of
/// an unknown device.
pub proof fn law_other_output_reports_are_ignored(
    devices: Map<u32, DeviceEntry>,
    integration_id: u32,
    action: OutputAction,
    value: Double,
    reaction: LipReaction,
)
    requires
        action is Other || !devices.contains_key(integration_id),
        reaction@ == lip_reaction(devices, LipMessage::Output { integration_id, action, value }),
    ensures
        reaction is Ignore,
{
}

/// Every event on a button of a known remote is published under the remote's name,
/// as the one member that bears the button's number: a press as `press`, a release
/// as `release`, and holding as `hold`.
pub proof fn law_buttons_of_every_known_remote_are_published(
    devices: Map<u32, DeviceEntry>,
    integration_id: u32,
    component: u32,
    action: DeviceAction,
    reaction: LipReaction,
)
    requires
        devices.contains_key(integration_id),
        devices[integration_id].config.kind is Pico,
        reaction@ == lip_reaction(devices, LipMessage::Device { integration_id, component, action }),
    ensures
        reaction matches LipReaction::PublishPartial { hc_id, patch } && {
            &&& hc_id@ == devices[integration_id].hc_id@
            &&& patch@ is Object
            &&& patch@->Object_0.len() == 1
            &&& patch@->Object_0[0].0 == "button_"@ + numeral(component as nat)
            &&& action is Press ==> patch@->Object_0[0].1 == JsonView::String("press"@)
            &&& action is Release ==> patch@->Object_0[0].1 == JsonView::String("release"@)
            &&& action is Hold ==> patch@->Object_0[0].1 == JsonView::String("hold"@)
        },
{
}

/// What every known occupancy sensor reports is translated: occupied exactly if it
/// reports that, and for that sensor.
pub proof fn law_occupancy_of_every_known_sensor_is_translated(
    devices: Map<u32, DeviceEntry>,
    integration_id: u32,
    state: OccupancyState,
    reaction: LipReaction,
)
    requires
        devices.contains_key(integration_id),
        devices[integration_id].config.kind is OccupancySensor,
        reaction@ == lip_reaction(devices, LipMessage::Group { integration_id, state }),
    ensures
        reaction == (LipReaction::TranslateOccupancy {
            integration_id,
            occupied: state is Occupied,
        }),
{
}

/// Button events of anything but a remote are ignored, occupancy of anything but
/// an occupancy sensor is, and so are errors, prompts and what is not understood.
pub proof fn law_other_messages_are_ignored(
    devices: Map<u32, DeviceEntry>,
    msg: LipMessage,
    reaction: LipReaction,
)
    requires
        reaction@ == lip_reaction(devices, msg),
    ensures
        msg matches LipMessage::Device { integration_id, .. } ==> {
            ||| reaction is Ignore
            ||| devices.contains_key(integration_id)
                && devices[integration_id].config.kind is Pico
        },
        msg matches LipMessage::Group { integration_id, .. } ==> {
            ||| reaction is Ignore
            ||| devices.contains_key(integration_id)
                && devices[integration_id].config.kind is OccupancySensor
        },
        msg is Error || msg is Prompt || msg is Unknown ==> reaction is Ignore,
{
}

/// A command to any known name, whatever the kind of the device, first sends every
/// line that it translates to, in order and as it is. At most one publication
/// follows: under the name of the device, in answer to that very command, from
/// `caseta`, and with the presumed state, where there is one.
pub proof fn law_commands_send_every_line_first<'a>(
    devices: Map<u32, DeviceEntry>,
    ids: Map<Seq<char>, u32>,
    hc_id: Seq<char>,
    payload: JsonView,
    lines: Seq<String>,
    actions: Seq<CommandAction<'a>>,
)
    requires
        ids.contains_key(hc_id),
        actions.map_values(|action: CommandAction<'a>| action@) == if ids.contains_key(hc_id) {
            command_actions(devices[ids[hc_id]], payload, lines)
        } else {
            Seq::<CommandActionView>::empty()
        },
    ensures
        lines.len() <= actions.len() <= lines.len() + 1,
        forall|i: int|
            0 <= i < lines.len() ==> (#[trigger] actions[i] matches CommandAction::Send(line)
                && line@ == lines[i]@),
        actions.len() == lines.len() <==> presumed_state(
            payload,
            devices[ids[hc_id]].config.kind,
        ) is None,
        actions.len() > lines.len() ==> (actions[lines.len() as int]
            matches CommandAction::PublishForCommand { hc_id: name, state, command, origin } && {
            &&& name@ == devices[ids[hc_id]].hc_id@
            &&& command@ == payload
            &&& origin@ == "caseta"@
            &&& presumed_state(payload, devices[ids[hc_id]].config.kind) == Some(state@)
        }),
{
    let seen = actions.map_values(|action: CommandAction<'a>| action@);
    assert(seen.len() == actions.len());
    assert forall|i: int| 0 <= i < lines.len() implies (#[trigger] actions[i]
        matches CommandAction::Send(line) && line@ == lines[i]@) by {
        assert(seen[i] == actions[i]@);
    }
    if actions.len() > lines.len() {
        assert(seen[lines.len() as int] == actions[lines.len() as int]@);
    }
}

/// A command to an unknown name leads to nothing.
pub proof fn law_commands_to_unknown_names_lead_to_nothing<'a>(
    devices: Map<u32, DeviceEntry>,
    ids: Map<Seq<char>, u32>,
    hc_id: Seq<char>,
    payload: JsonView,
    lines: Seq<String>,
    actions: Seq<CommandAction<'a>>,
)
    requires
        !ids.contains_key(hc_id),
        actions.map_values(|action: CommandAction<'a>| action@) == if ids.contains_key(hc_id) {
            command_actions(devices[ids[hc_id]], payload, lines)
        } else {
            Seq::<CommandActionView>::empty()
        },
    ensures
        actions.len() == 0,
{
    assert(actions.map_values(|action: CommandAction<'a>| action@).len() == actions.len());
}

/// The translated state of any known device, whatever its kind, is published as it
/// is and under the name of that device. Where the translation gave none, or the
/// device is unknown, nothing is published.
pub proof fn law_translated_states_are_published_as_they_are(
    devices: Map<u32, DeviceEntry>,
    integration_id: u32,
    state: Option<Json>,
)
    ensures
        devices.contains_key(integration_id) ==> (state matches Some(json) ==> publication(
            devices,
            integration_id,
            state,
        ) == Some((devices[integration_id].hc_id@, json))),
        !devices.contains_key(integration_id) || state is None ==> publication(
            devices,
            integration_id,
            state,
        ) is None,
{
}

/// Commands to any known name fade as the device itself is configured to, whatever
/// its kind, and otherwise as the bridge is. For an unknown name there is no fade
/// time.
pub proof fn law_commands_fade_as_configured(
    devices: Map<u32, DeviceEntry>,
    ids: Map<Seq<char>, u32>,
    caseta: CasetaConfig,
    hc_id: Seq<char>,
)
    ensures
        ids.contains_key(hc_id) ==> command_fade(devices, ids, caseta, hc_id) == Some(
            match devices[ids[hc_id]].config.fade_secs {
                Some(own) => own,
                None => caseta.default_fade_secs,
            },
        ),
        !ids.contains_key(hc_id) ==> command_fade(devices, ids, caseta, hc_id) is None,
{
}

/// A dimmer that is asked for a brightness is presumed to be exactly as bright, and
/// on exactly if that is above zero, whatever else the command says. A whole number
/// is told as the nearest double, and any other as it is.
pub proof fn law_dimmers_are_presumed_as_bright_as_asked(
    cmd: JsonView,
    number: JsonNumber,
    state: Option<Json>,
)
    requires
        cmd.member("brightness_pct"@) == Some(JsonView::Number(number)),
        match state {
            Some(state) => presumed_state(cmd, DeviceKind::Dimmer) == Some(state@),
            None => presumed_state(cmd, DeviceKind::Dimmer) is None,
        },
    ensures
        state matches Some(json) && {
            let asked = match number {
                JsonNumber::Unsigned(n) => Double { bits: nearest_double_bits(n as int) },
                JsonNumber::Negative(n) => Double { bits: nearest_double_bits(n as int) },
                JsonNumber::Double(d) => d,
            };
            &&& json@.member("brightness_pct"@) == Some(JsonView::Number(JsonNumber::Double(asked)))
            &&& json@.member("on"@) == Some(JsonView::Bool(asked.positive()))
            &&& number matches JsonNumber::Unsigned(n) ==> json@.member("on"@) == Some(
                JsonView::Bool(n > 0),
            )
            &&& number matches JsonNumber::Negative(n) ==> json@.member("on"@) == Some(
                JsonView::Bool(n > 0),
            )
            &&& forall|key: Seq<char>|
                key != "on"@ && key != "brightness_pct"@ ==> #[trigger] json@.member(key) is None
        },
{
    reveal_strlit("on");
    reveal_strlit("brightness_pct");
    reveal_with_fuel(first_under, 3);
    match number {
        JsonNumber::Unsigned(n) => {
            law_the_nearest_double_keeps_the_sign(n as int);
        },
        JsonNumber::Negative(n) => {
            law_the_nearest_double_keeps_the_sign(n as int);
        },
        JsonNumber::Double(_) => {},
    }
    let entries = state->0@->Object_0;
    assert("on"@.len() != "brightness_pct"@.len());
    assert(entries.drop_first()[0] == entries[1]);
    assert(entries.drop_first().drop_first().len() == 0);
}

/// A fan that is asked for a speed is presumed to run at exactly that speed, and to
/// be on exactly if that is not `off`, whatever else the command says.
pub proof fn law_fans_are_presumed_as_fast_as_asked(
    cmd: JsonView,
    speed: Seq<char>,
    state: Option<Json>,
)
    requires
        cmd.member("speed"@) == Some(JsonView::String(speed)),
        match state {
            Some(state) => presumed_state(cmd, DeviceKind::FanControl) == Some(state@),
            None => presumed_state(cmd, DeviceKind::FanControl) is None,
        },
    ensures
        state matches Some(json) && {
            &&& json@.member("speed"@) == Some(JsonView::String(speed))
            &&& json@.member("on"@) == Some(JsonView::Bool(speed != "off"@))
            &&& forall|key: Seq<char>|
                key != "on"@ && key != "speed"@ ==> #[trigger] json@.member(key) is None
        },
{
    reveal_strlit("on");
    reveal_strlit("speed");
    reveal_with_fuel(first_under, 3);
    let entries = state->0@->Object_0;
    assert("on"@.len() != "speed"@.len());
    assert(entries.drop_first()[0] == entries[1]);
    assert(entries.drop_first().drop_first().len() == 0);
}

/// A switch, a dimmer that is asked for no brightness and a fan that is asked for
/// no speed are presumed to be on or off just as the command asks, and nothing else
/// is said of them. Where the command does not ask, nothing is presumed.
pub proof fn law_switching_is_presumed_as_asked(
    cmd: JsonView,
    kind: DeviceKind,
    state: Option<Json>,
)
    requires
        ({
            ||| kind is Switch
            ||| kind is Dimmer && !(cmd.member("brightness_pct"@) matches Some(JsonView::Number(_)))
            ||| kind is FanControl && !(cmd.member("speed"@) matches Some(JsonView::String(_)))
        }),
        match state {
            Some(state) => presumed_state(cmd, kind) == Some(state@),
            None => presumed_state(cmd, kind) is None,
        },
    ensures
        cmd.member("on"@) matches Some(JsonView::Bool(on)) ==> (state matches Some(json) && {
            &&& json@.member("on"@) == Some(JsonView::Bool(on))
            &&& forall|key: Seq<char>| key != "on"@ ==> #[trigger] json@.member(key) is None
        }),
        !(cmd.member("on"@) matches Some(JsonView::Bool(_))) ==> state is None,
{
    reveal_with_fuel(first_under, 2);
}

/// Of shades, remotes and occupancy sensors no state is presumed, whatever the
/// command.
pub proof fn law_nothing_is_presumed_of_shades_and_sensors(
    cmd: JsonView,
    kind: DeviceKind,
    state: Option<Json>,
)
    requires
        kind is Shade || kind is Pico || kind is OccupancySensor,
        match state {
            Some(state) => presumed_state(cmd, kind) == Some(state@),
            None => presumed_state(cmd, kind) is None,
        },
    ensures
        state is None,
{
}

/// Of read-only devices no state is presumed, whatever the command.
pub proof fn law_of_read_only_devices_nothing_is_presumed(cmd: JsonView, kind: DeviceKind)
    requires
        !kind.has_level(),
    ensures
        presumed_state(cmd, kind) is None,
{
}

/// A presumed state always says whether the device is on: as the brightness of a
/// dimmer and the speed of a fan tell, and otherwise as the command asks.
pub proof fn law_presumed_states_say_on_or_off(cmd: JsonView, kind: DeviceKind)
    requires
        presumed_state(cmd, kind) is Some,
    ensures
        truth_under(presumed_state(cmd, kind)->0, "on"@) == if kind is Dimmer && double_under(
            cmd,
            "brightness_pct"@,
        ) is Some {
            Some(double_under(cmd, "brightness_pct"@)->0.positive())
        } else if kind is FanControl && text_under(cmd, "speed"@) is Some {
            Some(text_under(cmd, "speed"@)->0 != "off"@)
        } else {
            truth_under(cmd, "on"@)
        },
{
    reveal_with_fuel(first_under, 2);
}

// ---------------------------------------------------------------------------
// Sessions
// ---------------------------------------------------------------------------

/// Whatever ends a session, or keeps it from coming up, a new one is set up after
/// the rest, and nothing else ends the rest.
pub proof fn law_every_session_is_followed_by_another(
    phase: Phase,
    event: SessionEvent,
    later: SessionEvent,
)
    requires
        next_phase(phase, event) is Resting,
    ensures
        next_phase(next_phase(phase, event), later) == if later is Rested {
            Phase::Connecting
        } else {
            Phase::Resting
        },
{
}

/// A device is announced as available when a session comes up, and as unavailable
/// when it ends or does not come up, before the rest. As long as the phase stays,
/// nothing is done.
pub proof fn law_availability_follows_the_phase(
    devices: Map<u32, DeviceEntry>,
    rest_secs: u64,
    phase: Phase,
    event: SessionEvent,
    actions: Seq<SessionActionView>,
    id: u32,
)
    requires
        answers(devices, rest_secs, phase, event, actions),
        devices.contains_key(id),
    ensures
        next_phase(phase, event) == phase ==> actions.len() == 0,
        next_phase(phase, event) is Live && !(phase is Live) ==> {
            &&& actions.contains(available(devices[id], true))
            &&& !actions.contains(available(devices[id], false))
        },
        next_phase(phase, event) is Resting && !(phase is Resting) ==> {
            &&& actions.contains(available(devices[id], false))
            &&& !actions.contains(available(devices[id], true))
            &&& actions.last() == SessionActionView::RestSecs(rest_secs)
        },
{
    if next_phase(phase, event) is Live && !(phase is Live) {
        let (said, asked) = choose|said: Seq<SessionActionView>, asked: Seq<SessionActionView>|
            {
                &&& #[trigger] announces(devices, true, said)
                &&& #[trigger] asks(devices, asked)
                &&& actions == (said + asked).push(
                    SessionActionView::StartKeepalive { every_secs: KEEPALIVE_SECS },
                )
            };
        law_announcements_reach_every_device(devices, true, said);
        let i = choose|i: int| 0 <= i < said.len() && said[i] == available(devices[id], true);
        assert(actions[i] == available(devices[id], true));
        lemma_queries_announce_nothing(devices, asked);
        if actions.contains(available(devices[id], false)) {
            let j = choose|j: int|
                0 <= j < actions.len() && actions[j] == available(devices[id], false);
            if j < said.len() {
                assert(tells_of_a_device(devices, true, said[j]));
            } else if j < said.len() + asked.len() {
                assert(asked[j - said.len()] == actions[j]);
            }
        }
    }
    if next_phase(phase, event) is Resting && !(phase is Resting) {
        let skip: int = if event is CommandsClosed {
            1
        } else {
            0
        };
        let down = actions.skip(skip);
        assert(skip == 0 ==> down =~= actions);
        assert(skip == 1 ==> down =~= actions.drop_first());
        let said = choose|said: Seq<SessionActionView>|
            {
                &&& #[trigger] announces(devices, false, said)
                &&& down == said.push(SessionActionView::RestSecs(rest_secs))
            };
        law_announcements_reach_every_device(devices, false, said);
        let i = choose|i: int| 0 <= i < said.len() && said[i] == available(devices[id], false);
        assert(actions[i + skip] == down[i]);
        assert(down[i] == said[i]);
        assert(down.last() == actions.last());
        if actions.contains(available(devices[id], true)) {
            let j = choose|j: int|
                0 <= j < actions.len() && actions[j] == available(devices[id], true);
            if j >= skip {
                assert(down[j - skip] == actions[j]);
                if j - skip < said.len() {
                    assert(tells_of_a_device(devices, false, said[j - skip]));
                }
            }
        }
    }
}

/// The announcement of one device.
pub open spec fn available(dev: DeviceEntry, yes: bool) -> SessionActionView {
    SessionActionView::PublishAvailability { hc_id: dev.hc_id@, available: yes }
}

proof fn lemma_queries_announce_nothing(
    devices: Map<u32, DeviceEntry>,
    asked: Seq<SessionActionView>,
)
    requires
        asks(devices, asked),
    ensures
        forall|i: int| 0 <= i < asked.len() ==> !(#[trigger] asked[i] is PublishAvailability),
{
    let order = choose|order: Seq<u32>| #[trigger]
        is_walk(order, devices.dom()) && asked == initial_queries(devices, order);
    lemma_queries_up_to(devices, order, order.len() as int);
    assert(order.take(order.len() as int) =~= order);
}

proof fn lemma_queries_up_to(devices: Map<u32, DeviceEntry>, order: Seq<u32>, n: int)
    requires
        0 <= n <= order.len(),
    ensures
        forall|i: int|
            0 <= i < initial_queries(devices, order.take(n)).len() ==> !(
            #[trigger] initial_queries(devices, order.take(n))[i] is PublishAvailability),
    decreases n,
{
    let each = |id: u32| query_of(devices[id]);
    if n == 0 {
        assert(initial_queries(devices, order.take(0)) =~= Seq::empty());
    } else {
        lemma_queries_up_to(devices, order, n - 1);
        order.lemma_flat_map_take_append(each, n - 1);
        let before = initial_queries(devices, order.take(n - 1));
        let asked = initial_queries(devices, order.take(n));
        assert(asked == before + query_of(devices[order[n - 1]]));
        assert forall|i: int| 0 <= i < asked.len() implies !(
        #[trigger] asked[i] is PublishAvailability) by {
            if i < before.len() {
                assert(asked[i] == before[i]);
            } else {
                assert(asked[i] == query_of(devices[order[n - 1]])[i - before.len()]);
            }
        }
    }
}

/// Whether an action tells of a device whether it is available.
pub open spec fn tells_of_a_device(
    devices: Map<u32, DeviceEntry>,
    available: bool,
    action: SessionActionView,
) -> bool {
    exists|id: u32| #[trigger]
        devices.contains_key(id) && action == (SessionActionView::PublishAvailability {
            hc_id: devices[id].hc_id@,
            available,
        })
}

/// An announcement tells of every device and of nothing else, once for each.
pub proof fn law_announcements_reach_every_device(
    devices: Map<u32, DeviceEntry>,
    available: bool,
    said: Seq<SessionActionView>,
)
    requires
        announces(devices, available, said),
    ensures
        said.len() == devices.dom().len(),
        forall|id: u32| #[trigger]
            devices.contains_key(id) ==> said.contains(
                SessionActionView::PublishAvailability { hc_id: devices[id].hc_id@, available },
            ),
        forall|i: int|
            0 <= i < said.len() ==> tells_of_a_device(devices, available, #[trigger] said[i]),
{
    let order = choose|order: Seq<u32>| #[trigger]
        is_walk(order, devices.dom()) && said == announcement(devices, order, available);
    order.unique_seq_to_set();
    assert forall|id: u32| #[trigger] devices.contains_key(id) implies said.contains(
        SessionActionView::PublishAvailability { hc_id: devices[id].hc_id@, available },
    ) by {
        assert(order.to_set().contains(id));
        let i = choose|i: int| 0 <= i < order.len() && order[i] == id;
        assert(said[i] == (SessionActionView::PublishAvailability {
            hc_id: devices[id].hc_id@,
            available,
        }));
    }
    assert forall|i: int| 0 <= i < said.len() implies tells_of_a_device(
        devices,
        available,
        #[trigger] said[i],
    ) by {
        assert(order.to_set().contains(order[i]));
        assert(devices.contains_key(order[i]));
    }
}

/// Exactly the outputs are asked for their levels.
pub proof fn law_exactly_the_outputs_are_asked(
    devices: Map<u32, DeviceEntry>,
    asked: Seq<SessionActionView>,
)
    requires
        asks(devices, asked),
        forall|id: u32| #[trigger]
            devices.contains_key(id) ==> devices[id].config.integration_id == id,
    ensures
        forall|id: u32|
            #![trigger devices.contains_key(id)]
            asked.contains(SessionActionView::QueryLevel { integration_id: id }) <==> (
            devices.contains_key(id) && devices[id].config.kind.has_level()),
{
    let order = choose|order: Seq<u32>| #[trigger]
        is_walk(order, devices.dom()) && asked == initial_queries(devices, order);
    assert forall|id: u32|
        #![trigger devices.contains_key(id)]
        asked.contains(SessionActionView::QueryLevel { integration_id: id }) <==> (
        devices.contains_key(id) && devices[id].config.kind.has_level()) by {
        lemma_queries(devices, order, order.len() as int, id);
        assert(order.take(order.len() as int) =~= order);
        if devices.contains_key(id) {
            assert(order.to_set().contains(id));
        }
        if order.contains(id) {
            assert(order.to_set().contains(id));
        }
    }
}

proof fn lemma_queries(devices: Map<u32, DeviceEntry>, order: Seq<u32>, n: int, id: u32)
    requires
        0 <= n <= order.len(),
        forall|id: u32| #[trigger]
            devices.contains_key(id) ==> devices[id].config.integration_id == id,
        is_walk(order, devices.dom()),
    ensures
        initial_queries(devices, order.take(n)).contains(
            SessionActionView::QueryLevel { integration_id: id },
        ) <==> order.take(n).contains(id) && devices[id].config.kind.has_level(),
    decreases n,
{
    let each = |id: u32| query_of(devices[id]);
    let query = SessionActionView::QueryLevel { integration_id: id };
    let asked = initial_queries(devices, order.take(n));
    if n == 0 {
        assert(asked =~= Seq::empty());
    } else {
        let last = order[n - 1];
        let before = initial_queries(devices, order.take(n - 1));
        lemma_queries(devices, order, n - 1, id);
        order.lemma_flat_map_take_append(each, n - 1);
        assert(asked == before + query_of(devices[last]));
        assert(order.to_set().contains(last));
        assert(devices.contains_key(last));
        assert(order.take(n) =~= order.take(n - 1).push(last));
        if before.contains(query) {
            let i = choose|i: int| 0 <= i < before.len() && before[i] == query;
            assert(asked[i] == query);
        }
        if last == id && devices[id].config.kind.has_level() {
            assert(asked[before.len() as int] == query);
            assert(order.take(n)[n - 1] == id);
        }
        if asked.contains(query) {
            let i = choose|i: int| 0 <= i < asked.len() && asked[i] == query;
            if i < before.len() {
                assert(before[i] == query);
            } else {
                assert(query_of(devices[last])[i - before.len()] == query);
            }
        }
        let shorter = order.take(n - 1);
        let longer = order.take(n);
        if shorter.contains(id) {
            let i = choose|i: int| 0 <= i < shorter.len() && shorter[i] == id;
            assert(longer[i] == id);
        }
        if longer.contains(id) {
            let i = choose|i: int| 0 <= i < longer.len() && longer[i] == id;
            if i < n - 1 {
                assert(shorter[i] == id);
            }
        }
    }
}

} // verus!
