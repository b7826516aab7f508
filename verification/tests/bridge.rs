use hc_caseta::bridge::{optimistic_state, Bridge, CommandAction, LipReaction};
use hc_caseta::config::{CasetaConfig, DeviceConfig, DeviceKind};
use hc_caseta::device::DeviceEntry;
use hc_caseta::double::Double;
use hc_caseta::json::{bool_under, Json, JsonNumber};
use hc_caseta::lip::{DeviceAction, LipMessage, OccupancyState, OutputAction};
use hc_caseta::session::{Phase, SessionAction, SessionEvent};

fn double(x: f64) -> Double {
    Double { bits: x.to_bits() }
}

fn entry(hc_id: &str, integration_id: u32, kind: DeviceKind) -> DeviceEntry {
    DeviceEntry {
        hc_id: hc_id.to_string(),
        config: DeviceConfig {
            integration_id,
            name: hc_id.to_uppercase(),
            kind,
            area: None,
            fade_secs: None,
            invert_position: false,
            buttons: Vec::new(),
        },
    }
}

fn caseta() -> CasetaConfig {
    CasetaConfig {
        host: "192.0.2.1".to_string(),
        port: 23,
        username: "u".to_string(),
        password: "p".to_string(),
        default_fade_secs: double(1.0),
        reconnect_delay_secs: 7,
    }
}

fn bridge() -> Bridge {
    Bridge::new(
        vec![
            entry("lamp", 2, DeviceKind::Dimmer),
            entry("relay", 3, DeviceKind::Switch),
            entry("blind", 4, DeviceKind::Shade),
            entry("fan", 5, DeviceKind::FanControl),
            entry("remote", 6, DeviceKind::Pico),
            entry("eye", 7, DeviceKind::OccupancySensor),
        ],
        caseta(),
    )
}

fn json(source: &str) -> Json {
    Json::parse(source).unwrap()
}

fn level(integration_id: u32, action: OutputAction) -> LipMessage {
    LipMessage::Output {
        integration_id,
        action,
        value: double(75.0),
    }
}

#[test]
fn levels_of_known_devices_are_translated() {
    let bridge = bridge();
    assert_eq!(
        bridge.handle_lip_message(&level(2, OutputAction::ZoneLevel)),
        LipReaction::TranslateLevel {
            integration_id: 2,
            value: double(75.0)
        }
    );
    assert_eq!(
        bridge.handle_lip_message(&level(2, OutputAction::Other)),
        LipReaction::Ignore
    );
    assert_eq!(
        bridge.handle_lip_message(&level(99, OutputAction::ZoneLevel)),
        LipReaction::Ignore
    );
}

#[test]
fn button_events_come_from_remotes_only() {
    let bridge = bridge();
    for (action, event) in [
        (DeviceAction::Press, "press"),
        (DeviceAction::Release, "release"),
        (DeviceAction::Hold, "hold"),
    ] {
        assert_eq!(
            bridge.handle_lip_message(&LipMessage::Device {
                integration_id: 6,
                component: 12,
                action
            }),
            LipReaction::PublishPartial {
                hc_id: "remote".to_string(),
                patch: json(&format!(r#"{{"button_12":"{event}"}}"#)),
            }
        );
    }
    for id in [2, 7, 99] {
        assert_eq!(
            bridge.handle_lip_message(&LipMessage::Device {
                integration_id: id,
                component: 2,
                action: DeviceAction::Press
            }),
            LipReaction::Ignore
        );
    }
}

#[test]
fn occupancy_comes_from_sensors_only() {
    let bridge = bridge();
    let group = |integration_id, state| LipMessage::Group {
        integration_id,
        state,
    };
    assert_eq!(
        bridge.handle_lip_message(&group(7, OccupancyState::Occupied)),
        LipReaction::TranslateOccupancy {
            integration_id: 7,
            occupied: true
        }
    );
    assert_eq!(
        bridge.handle_lip_message(&group(7, OccupancyState::Vacant)),
        LipReaction::TranslateOccupancy {
            integration_id: 7,
            occupied: false
        }
    );
    assert_eq!(
        bridge.handle_lip_message(&group(6, OccupancyState::Occupied)),
        LipReaction::Ignore
    );
}

#[test]
fn other_messages_lead_to_nothing() {
    let bridge = bridge();
    for msg in [
        LipMessage::Error("1".to_string()),
        LipMessage::Prompt,
        LipMessage::Unknown("?".to_string()),
    ] {
        assert_eq!(bridge.handle_lip_message(&msg), LipReaction::Ignore);
    }
}

#[test]
fn translated_states_are_published_under_the_name_of_the_device() {
    let bridge = bridge();
    assert_eq!(
        bridge.publish_translated(2, Some(Json::Bool(true))),
        Some(("lamp".to_string(), Json::Bool(true)))
    );
    assert_eq!(bridge.publish_translated(2, None), None);
    assert_eq!(bridge.publish_translated(99, Some(Json::Null)), None);
}

#[test]
fn commands_are_sent_and_answered_with_the_presumed_state() {
    let bridge = bridge();
    let dim = json(r#"{"brightness_pct":40}"#);
    let actions = bridge.handle_homecore_command(
        "lamp",
        &dim,
        vec!["first".to_string(), "second".to_string()],
    );
    assert_eq!(actions.len(), 3);
    assert_eq!(actions[0], CommandAction::Send("first".to_string()));
    assert_eq!(actions[1], CommandAction::Send("second".to_string()));
    match &actions[2] {
        CommandAction::PublishForCommand {
            hc_id,
            state,
            command,
            origin,
        } => {
            assert_eq!(hc_id, "lamp");
            assert_eq!(**command, dim);
            assert_eq!(origin, "caseta");
            assert_eq!(bool_under(state, "on"), Some(true));
        }
        other => panic!("{other:?}"),
    }
    let on = json(r#"{"on":true}"#);
    let silent = bridge.handle_homecore_command("blind", &on, vec!["move".to_string()]);
    assert_eq!(silent, vec![CommandAction::Send("move".to_string())]);
    assert!(bridge
        .handle_homecore_command("nobody", &on, vec!["x".to_string()])
        .is_empty());
    assert!(bridge.command_target("nobody").is_none());
    assert_eq!(bridge.command_target("fan").unwrap().hc_id, "fan");
}

#[test]
fn commands_fade_as_the_device_or_the_bridge_says() {
    let mut slow = entry("slow", 2, DeviceKind::Dimmer);
    slow.config.fade_secs = Some(double(4.5));
    let bridge = Bridge::new(vec![slow, entry("lamp", 3, DeviceKind::Dimmer)], caseta());
    assert_eq!(bridge.command_fade_secs("slow"), Some(double(4.5)));
    assert_eq!(bridge.command_fade_secs("lamp"), Some(double(1.0)));
    assert_eq!(bridge.command_fade_secs("nobody"), None);
}

#[test]
fn presumed_states_follow_the_kind() {
    let state = |kind, cmd: &str| optimistic_state(&json(cmd), &entry("d", 2, kind));
    let pair = |on: bool, key: &str, value: Json| {
        Some(Json::Object(vec![
            ("on".to_string(), Json::Bool(on)),
            (key.to_string(), value),
        ]))
    };
    let number = |x: f64| Json::Number(JsonNumber::Double(double(x)));
    assert_eq!(
        state(DeviceKind::Dimmer, r#"{"brightness_pct":40,"on":false}"#),
        pair(true, "brightness_pct", number(40.0))
    );
    assert_eq!(
        state(DeviceKind::Dimmer, r#"{"brightness_pct":0}"#),
        pair(false, "brightness_pct", number(0.0))
    );
    assert_eq!(
        state(DeviceKind::Dimmer, r#"{"brightness_pct":-5}"#),
        pair(false, "brightness_pct", number(-5.0))
    );
    assert_eq!(
        state(DeviceKind::Dimmer, r#"{"brightness_pct":-0.5}"#),
        pair(false, "brightness_pct", number(-0.5))
    );
    assert_eq!(
        state(DeviceKind::Dimmer, r#"{"brightness_pct":"40","on":true}"#),
        Some(json(r#"{"on":true}"#))
    );
    assert_eq!(state(DeviceKind::Dimmer, r#"{"speed":"low"}"#), None);
    assert_eq!(
        state(DeviceKind::Switch, r#"{"on":false,"brightness_pct":9}"#),
        Some(json(r#"{"on":false}"#))
    );
    assert_eq!(state(DeviceKind::Switch, r#"{"on":1}"#), None);
    assert_eq!(
        state(DeviceKind::FanControl, r#"{"speed":"off","on":true}"#),
        pair(false, "speed", Json::String("off".to_string()))
    );
    assert_eq!(
        state(DeviceKind::FanControl, r#"{"speed":"high"}"#),
        pair(true, "speed", Json::String("high".to_string()))
    );
    assert_eq!(
        state(DeviceKind::FanControl, r#"{"on":true}"#),
        Some(json(r#"{"on":true}"#))
    );
    for kind in [
        DeviceKind::Shade,
        DeviceKind::Pico,
        DeviceKind::OccupancySensor,
    ] {
        assert_eq!(
            state(kind, r#"{"on":true,"brightness_pct":9,"speed":"low"}"#),
            None
        );
    }
}

#[test]
fn the_last_of_two_devices_stands() {
    let bridge = Bridge::new(
        vec![
            entry("old", 2, DeviceKind::Dimmer),
            entry("new", 2, DeviceKind::Switch),
            entry("twin", 3, DeviceKind::Switch),
            entry("twin", 4, DeviceKind::Shade),
        ],
        caseta(),
    );
    assert_eq!(bridge.device(2).unwrap().hc_id, "new");
    assert_eq!(bridge.command_target("old").unwrap().hc_id, "new");
    assert_eq!(bridge.command_target("twin").unwrap().config.integration_id, 4);
    assert_eq!(bridge.device(3).unwrap().hc_id, "twin");
    let mut ids = bridge.device_ids();
    ids.sort();
    assert_eq!(ids, vec![2, 3, 4]);
}

fn announced(actions: &[SessionAction], value: bool) -> Vec<String> {
    let mut names: Vec<String> = actions
        .iter()
        .filter_map(|action| match action {
            SessionAction::PublishAvailability { hc_id, available } if *available == value => {
                Some(hc_id.clone())
            }
            _ => None,
        })
        .collect();
    names.sort();
    names
}

const ALL: [&str; 6] = ["blind", "eye", "fan", "lamp", "relay", "remote"];

#[test]
fn a_session_comes_up_with_announcements_and_queries() {
    let (phase, actions) = bridge().step(Phase::Connecting, SessionEvent::Connected);
    assert_eq!(phase, Phase::Live);
    assert_eq!(actions.len(), 6 + 4 * 2 + 1);
    assert_eq!(announced(&actions[..6], true), ALL);
    let mut asked = Vec::new();
    for pair in actions[6..14].chunks(2) {
        match &pair[0] {
            SessionAction::QueryLevel { integration_id } => asked.push(*integration_id),
            other => panic!("{other:?}"),
        }
        assert_eq!(pair[1], SessionAction::PauseMillis(50));
    }
    asked.sort();
    assert_eq!(asked, vec![2, 3, 4, 5]);
    assert_eq!(actions[14], SessionAction::StartKeepalive { every_secs: 60 });
}

#[test]
fn a_session_ends_with_announcements_and_a_rest() {
    let bridge = bridge();
    for (phase, event) in [
        (Phase::Connecting, SessionEvent::ConnectFailed),
        (Phase::Live, SessionEvent::LinkLost),
    ] {
        let (next, actions) = bridge.step(phase, event);
        assert_eq!(next, Phase::Resting);
        assert_eq!(actions.len(), 7);
        assert_eq!(announced(&actions, false), ALL);
        assert_eq!(actions[6], SessionAction::RestSecs(7));
    }
    let (next, actions) = bridge.step(Phase::Live, SessionEvent::CommandsClosed);
    assert_eq!(next, Phase::Resting);
    assert_eq!(actions.len(), 8);
    assert_eq!(actions[0], SessionAction::StopKeepalive);
    assert_eq!(announced(&actions, false), ALL);
    assert_eq!(actions[7], SessionAction::RestSecs(7));
}

#[test]
fn after_the_rest_the_next_session_is_set_up() {
    let bridge = bridge();
    assert_eq!(
        bridge.step(Phase::Resting, SessionEvent::Rested),
        (Phase::Connecting, vec![SessionAction::Connect])
    );
    assert_eq!(
        bridge.step(Phase::Resting, SessionEvent::LinkLost),
        (Phase::Resting, Vec::new())
    );
    assert_eq!(
        bridge.step(Phase::Live, SessionEvent::Connected),
        (Phase::Live, Vec::new())
    );
    assert_eq!(bridge.caseta_config().host, "192.0.2.1");
}

#[test]
fn the_parts_of_a_session_stand_alone() {
    let bridge = bridge();
    assert_eq!(announced(&bridge.announce(true), true), ALL);
    assert_eq!(bridge.query_initial_states().len(), 8);
}
