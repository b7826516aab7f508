use hc_caseta::config::{DeviceConfig, DeviceKind, HomecoreConfig};
use hc_caseta::device::DeviceEntry;
use hc_caseta::paths::{cache_path_in, published_ids_cache_path};
use hc_caseta::startup::{
    after_attempt, config_path, startup_plan,
    AfterAttempt, StartupStep,
};

fn entry(hc_id: &str, kind: DeviceKind, area: Option<&str>) -> DeviceEntry {
    DeviceEntry {
        hc_id: hc_id.to_string(),
        config: DeviceConfig {
            integration_id: 2,
            name: format!("The {hc_id}"),
            kind,
            area: area.map(str::to_string),
            fade_secs: None,
            invert_position: false,
            buttons: Vec::new(),
        },
    }
}

fn homecore() -> HomecoreConfig {
    HomecoreConfig {
        broker_host: "h".to_string(),
        broker_port: 1,
        plugin_id: "p".to_string(),
        password: "s".to_string(),
    }
}

#[test]
fn three_attempts_are_made() {
    assert_eq!(after_attempt(1, true), AfterAttempt::Finish);
    assert_eq!(after_attempt(3, true), AfterAttempt::Finish);
    assert_eq!(after_attempt(1, false), AfterAttempt::RetryIn { secs: 60 });
    assert_eq!(after_attempt(2, false), AfterAttempt::RetryIn { secs: 60 });
    assert_eq!(after_attempt(3, false), AfterAttempt::GiveUp);
    assert_eq!(after_attempt(u32::MAX, false), AfterAttempt::GiveUp);
}

#[test]
fn the_configuration_has_a_default_path() {
    assert_eq!(config_path(None), "config/config.toml");
    assert_eq!(config_path(Some("x".to_string())), "x");
    assert_eq!(config_path(Some(String::new())), "");
}

#[test]
fn the_cache_lies_beside_the_configuration() {
    for (config, cache) in [
        ("config/config.toml", "config/.published-device-ids.json"),
        ("/etc/hc/config.toml", "/etc/hc/.published-device-ids.json"),
        ("config.toml", ".published-device-ids.json"),
        ("", "./.published-device-ids.json"),
        ("/", "./.published-device-ids.json"),
        ("/config.toml", "/.published-device-ids.json"),
        ("my dir/config.toml", "my dir/.published-device-ids.json"),
        ("./été/c d.toml", "./été/.published-device-ids.json"),
        ("a/(b) + 'c'?/*.toml", "a/(b) + 'c'?/.published-device-ids.json"),
        ("../config.toml", "../.published-device-ids.json"),
        ("a/..", "a/.published-device-ids.json"),
        ("a/...", "a/.published-device-ids.json"),
        ("a/b/", "a/.published-device-ids.json"),
        ("/a/", "/.published-device-ids.json"),
        ("a/", ".published-device-ids.json"),
        (".", ".published-device-ids.json"),
        ("./", ".published-device-ids.json"),
        ("..", ".published-device-ids.json"),
        ("a//b", "a/.published-device-ids.json"),
        ("a/.", ".published-device-ids.json"),
        ("a/./b", "a/.published-device-ids.json"),
        ("a//b/c/./d//.", "a//b/c/.published-device-ids.json"),
        ("././a", "./.published-device-ids.json"),
        ("/./a", "/.published-device-ids.json"),
        ("/.", "./.published-device-ids.json"),
        ("./.", ".published-device-ids.json"),
        (r"C:\x y/config.toml", r"C:\x y/.published-device-ids.json"),
        ("a:b/c", "a:b/.published-device-ids.json"),
    ] {
        assert_eq!(published_ids_cache_path(config), cache, "{config}");
    }
    assert_eq!(cache_path_in(None), "./.published-device-ids.json");
    assert_eq!(
        cache_path_in(Some("a/b".to_string())),
        "a/b/.published-device-ids.json"
    );
}

#[test]
fn the_cache_has_its_name_whatever_the_configuration() {
    for config in [r"C:\config.toml", "C:config.toml", r"\\?\C:\x", "//a/b", r"a\/b", ":"] {
        assert!(published_ids_cache_path(config).ends_with(".published-device-ids.json"));
    }
}

#[test]
fn configurations_of_one_directory_share_the_cache() {
    for (one, other) in [
        ("my dir/a.toml", "my dir/b.toml"),
        ("/a.toml", "/b"),
        ("a.toml", "b c.toml"),
        ("x/y/a", "x/y/b/"),
    ] {
        assert_eq!(
            published_ids_cache_path(one),
            published_ids_cache_path(other)
        );
    }
}

#[test]
fn an_attempt_is_planned_step_by_step() {
    let devices = vec![
        entry("lamp", DeviceKind::Dimmer, Some("Den")),
        entry("eye", DeviceKind::OccupancySensor, None),
    ];
    let steps = startup_plan(&homecore(), "config/config.toml", &devices);
    assert_eq!(
        steps,
        vec![
            StartupStep::ConnectBroker {
                broker_host: "h".to_string(),
                broker_port: 1,
                plugin_id: "p".to_string(),
                password: "s".to_string(),
            },
            StartupStep::PersistDevices {
                path: "config/.published-device-ids.json".to_string()
            },
            StartupStep::ForwardLogs {
                plugin_id: "p".to_string()
            },
            StartupStep::EnableManagement {
                heartbeat_secs: 60,
                config_path: "config/config.toml".to_string()
            },
            StartupStep::SpawnEventLoop,
            StartupStep::PauseMillis(100),
            StartupStep::Register {
                hc_id: "lamp".to_string(),
                name: "The lamp".to_string(),
                device_type: "light".to_string(),
                area: Some("Den".to_string()),
            },
            StartupStep::SubscribeCommands {
                hc_id: "lamp".to_string()
            },
            StartupStep::PublishAvailable {
                hc_id: "lamp".to_string()
            },
            StartupStep::Register {
                hc_id: "eye".to_string(),
                name: "The eye".to_string(),
                device_type: "occupancy_sensor".to_string(),
                area: None,
            },
            StartupStep::SubscribeCommands {
                hc_id: "eye".to_string()
            },
            StartupStep::PublishAvailable {
                hc_id: "eye".to_string()
            },
            StartupStep::Reconcile {
                live: vec!["lamp".to_string(), "eye".to_string()]
            },
            StartupStep::RunBridge,
        ]
    );
}

#[test]
fn only_the_connection_and_the_management_are_essential() {
    let essential: Vec<usize> = startup_plan(
        &homecore(),
        "c.toml",
        &vec![entry("lamp", DeviceKind::Dimmer, None)],
    )
    .iter()
    .enumerate()
    .filter(|(_, step)| step.is_essential())
    .map(|(i, _)| i)
    .collect();
    assert_eq!(essential, vec![0, 3]);
}
