use hc_caseta::config::{
    default_broker_host, default_broker_port, default_fade_secs, default_lip_port,
    default_password, default_plugin_id, default_reconnect_delay_secs, default_username,
    ConfigError, DeviceConfig, DeviceKind,
};
use hc_caseta::device::DeviceEntry;
use hc_caseta::double::Double;

fn device(kind: DeviceKind, fade: Option<f64>) -> DeviceConfig {
    DeviceConfig {
        integration_id: 2,
        name: "Lamp".to_string(),
        kind,
        area: None,
        fade_secs: fade.map(|secs| Double {
            bits: secs.to_bits(),
        }),
        invert_position: false,
        buttons: Vec::new(),
    }
}

#[test]
fn defaults_stand_where_nothing_is_configured() {
    assert_eq!(default_broker_host(), "127.0.0.1");
    assert_eq!(default_broker_port(), 1883);
    assert_eq!(default_plugin_id(), "plugin.caseta");
    assert_eq!(default_lip_port(), 23);
    assert_eq!(default_username(), "lutron");
    assert_eq!(default_password(), "integration");
    assert_eq!(f64::from_bits(default_fade_secs().bits), 1.0);
    assert_eq!(default_reconnect_delay_secs(), 5);
}

#[test]
fn a_device_may_have_its_own_fade_time() {
    let own = device(DeviceKind::Dimmer, Some(2.5)).fade_or(default_fade_secs());
    assert_eq!(f64::from_bits(own.bits), 2.5);
    let common = device(DeviceKind::Dimmer, None).fade_or(default_fade_secs());
    assert_eq!(f64::from_bits(common.bits), 1.0);
}

#[test]
fn load_errors_name_the_file() {
    let unread = ConfigError::CannotRead {
        path: "a.toml".to_string(),
        reason: "gone".to_string(),
    };
    assert_eq!(unread.to_string(), "Cannot read config a.toml: gone");
    let unparsed = ConfigError::CannotParse {
        path: "b.toml".to_string(),
        reason: "odd".to_string(),
    };
    assert_eq!(unparsed.to_string(), "Config parse error in b.toml: odd");
}

#[test]
fn kinds_map_to_device_types() {
    for (kind, name, output, button, group) in [
        (DeviceKind::Dimmer, "light", true, false, false),
        (DeviceKind::Switch, "switch", true, false, false),
        (DeviceKind::Shade, "cover", true, false, false),
        (DeviceKind::FanControl, "fan", true, false, false),
        (DeviceKind::Pico, "button", false, true, false),
        (
            DeviceKind::OccupancySensor,
            "occupancy_sensor",
            false,
            false,
            true,
        ),
    ] {
        let entry = DeviceEntry {
            hc_id: "x".to_string(),
            config: device(kind, None),
        };
        assert_eq!(entry.homecore_device_type(), name);
        assert_eq!(entry.is_output(), output);
        assert_eq!(entry.is_button_device(), button);
        assert_eq!(entry.is_group(), group);
    }
}
