//! What holds of every start.

use crate::config::{ConfigError, DeviceKind, HomecoreConfig};
use crate::device::DeviceEntry;
use crate::paths::beside;
use crate::startup::{
    all_steps, chosen_path, default_config_path, device_steps, follow_up, law_steps_come_in_order, opening_steps,
    steps_seen, AfterAttempt, StartupStep,
};
use vstd::prelude::*;

verus! {

broadcast use vstd::string::group_string_axioms;

/// A start opens by connecting to the configured broker as the configured plugin,
/// remembering the published devices beside the configuration, forwarding the log,
/// enabling the management with a heartbeat every 60 seconds, and running the event
/// loop, which is given 100 milliseconds.
pub proof fn law_a_start_opens_with_the_broker(
    homecore: HomecoreConfig,
    config_path: Seq<char>,
    devices: Seq<DeviceEntry>,
    steps: Seq<StartupStep>,
)
    requires
        exists|cache: Seq<char>|
            {
                &&& #[trigger] beside(config_path, cache)
                &&& steps_seen(steps) == all_steps(homecore, config_path, cache, devices)
            },
    ensures
        steps.len() == 6 + 3 * devices.len() + 2,
        steps[0] matches StartupStep::ConnectBroker { broker_host, broker_port, plugin_id, password }
            && {
            &&& broker_host@ == homecore.broker_host@
            &&& broker_port == homecore.broker_port
            &&& plugin_id@ == homecore.plugin_id@
            &&& password@ == homecore.password@
        },
        steps[1] matches StartupStep::PersistDevices { path } && beside(config_path, path@),
        steps[2] matches StartupStep::ForwardLogs { plugin_id } && plugin_id@
            == homecore.plugin_id@,
        steps[3] matches StartupStep::EnableManagement { heartbeat_secs, config_path: told }
            && heartbeat_secs == 60 && told@ == config_path,
        steps[4] is SpawnEventLoop,
        steps[5] == StartupStep::PauseMillis(100),
        steps[steps.len() - 1] is RunBridge,
{
    let cache = choose|cache: Seq<char>|
        {
            &&& #[trigger] beside(config_path, cache)
            &&& steps_seen(steps) == all_steps(homecore, config_path, cache, devices)
        };
    law_steps_come_in_order(homecore, config_path, cache, devices);
    let all = all_steps(homecore, config_path, cache, devices);
    let opening = opening_steps(homecore, config_path, cache);
    assert(steps_seen(steps).len() == steps.len());
    assert forall|i: int| 0 <= i < 6 implies (#[trigger] steps[i])@ == opening[i] by {
        assert(steps_seen(steps)[i] == steps[i]@);
        assert(all[i] == opening[i]);
    }
    assert(steps[0]@ == opening[0]);
    assert(steps[1]@ == opening[1]);
    assert(steps[2]@ == opening[2]);
    assert(steps[3]@ == opening[3]);
    assert(steps[4]@ == opening[4]);
    assert(steps[5]@ == opening[5]);
    assert(steps_seen(steps)[steps.len() - 1] == steps[steps.len() - 1]@);
}

/// Each configured device, one after the other, is registered under its HomeCore
/// name, with its own name, type and area, then its commands are subscribed to, and
/// then it is announced, all under that same HomeCore name.
pub proof fn law_each_device_is_registered_under_its_name(
    homecore: HomecoreConfig,
    config_path: Seq<char>,
    devices: Seq<DeviceEntry>,
    steps: Seq<StartupStep>,
    k: int,
)
    requires
        exists|cache: Seq<char>|
            {
                &&& #[trigger] beside(config_path, cache)
                &&& steps_seen(steps) == all_steps(homecore, config_path, cache, devices)
            },
        0 <= k < devices.len(),
    ensures
        steps[6 + 3 * k] matches StartupStep::Register { hc_id, name, device_type, area } && {
            &&& hc_id@ == devices[k].hc_id@
            &&& name@ == devices[k].config.name@
            &&& device_type@ == match devices[k].config.kind {
                DeviceKind::Dimmer => "light"@,
                DeviceKind::Switch => "switch"@,
                DeviceKind::Shade => "cover"@,
                DeviceKind::FanControl => "fan"@,
                DeviceKind::Pico => "button"@,
                DeviceKind::OccupancySensor => "occupancy_sensor"@,
            }
            &&& match (area, devices[k].config.area) {
                (Some(told), Some(known)) => told@ == known@,
                (None, None) => true,
                _ => false,
            }
        },
        steps[6 + 3 * k + 1] matches StartupStep::SubscribeCommands { hc_id } && hc_id@
            == devices[k].hc_id@,
        steps[6 + 3 * k + 2] matches StartupStep::PublishAvailable { hc_id } && hc_id@
            == devices[k].hc_id@,
{
    let cache = choose|cache: Seq<char>|
        {
            &&& #[trigger] beside(config_path, cache)
            &&& steps_seen(steps) == all_steps(homecore, config_path, cache, devices)
        };
    law_steps_come_in_order(homecore, config_path, cache, devices);
    let all = all_steps(homecore, config_path, cache, devices);
    assert(steps_seen(steps).len() == steps.len());
    let own = device_steps(devices[k]);
    assert(all[6 + 3 * k] == own[0]);
    assert(all[6 + 3 * k + 1] == own[1]);
    assert(all[6 + 3 * k + 2] == own[2]);
    assert(steps_seen(steps)[6 + 3 * k] == steps[6 + 3 * k]@);
    assert(steps_seen(steps)[6 + 3 * k + 1] == steps[6 + 3 * k + 1]@);
    assert(steps_seen(steps)[6 + 3 * k + 2] == steps[6 + 3 * k + 2]@);
}

/// The devices that stay when the others are dropped are, one by one, those that
/// were registered, under the very HomeCore names under which they were.
pub proof fn law_the_registered_devices_stay(
    homecore: HomecoreConfig,
    config_path: Seq<char>,
    devices: Seq<DeviceEntry>,
    steps: Seq<StartupStep>,
)
    requires
        exists|cache: Seq<char>|
            {
                &&& #[trigger] beside(config_path, cache)
                &&& steps_seen(steps) == all_steps(homecore, config_path, cache, devices)
            },
    ensures
        steps[6 + 3 * devices.len() as int] matches StartupStep::Reconcile { live } && {
            &&& live@.len() == devices.len()
            &&& forall|k: int|
                0 <= k < devices.len() ==> {
                    &&& (#[trigger] live@[k])@ == devices[k].hc_id@
                    &&& steps[6 + 3 * k] matches StartupStep::Register { hc_id, .. } && hc_id@
                        == live@[k]@
                }
        },
{
    let cache = choose|cache: Seq<char>|
        {
            &&& #[trigger] beside(config_path, cache)
            &&& steps_seen(steps) == all_steps(homecore, config_path, cache, devices)
        };
    law_steps_come_in_order(homecore, config_path, cache, devices);
    let all = all_steps(homecore, config_path, cache, devices);
    assert(steps_seen(steps).len() == steps.len());
    let at = 6 + 3 * devices.len() as int;
    assert(steps_seen(steps)[at] == steps[at]@);
    let live = steps[at]->live;
    let seen = steps[at]@->live;
    assert(seen.len() == live@.len());
    assert forall|k: int| 0 <= k < devices.len() implies {
        &&& (#[trigger] live@[k])@ == devices[k].hc_id@
        &&& steps[6 + 3 * k] matches StartupStep::Register { hc_id, .. } && hc_id@ == live@[k]@
    } by {
        assert(seen[k] == live@[k]@);
        law_each_device_is_registered_under_its_name(homecore, config_path, devices, steps, k);
    }
}

/// A start that succeeds is the last. One that fails is tried again after 60
/// seconds, but for the third, after which the plugin gives up.
pub proof fn law_three_attempts_with_a_minute_between(attempt: u32, started: bool)
    ensures
        started ==> follow_up(attempt, started) is Finish,
        !started && attempt < 3 ==> follow_up(attempt, started) == (AfterAttempt::RetryIn {
            secs: 60,
        }),
        !started && attempt >= 3 ==> follow_up(attempt, started) is GiveUp,
{
}

/// A path that the command line names is taken as it is, and otherwise the
/// configuration is `config/config.toml`.
pub proof fn law_the_command_line_names_the_configuration(argument: Option<String>)
    ensures
        argument matches Some(given) ==> chosen_path(argument) == given@,
        argument is None ==> chosen_path(argument) == "config/config.toml"@,
        default_config_path() == "config/config.toml"@,
{
}

/// A start fails with the connection to the broker or with the management, and with
/// no other step: whatever becomes of a device, the others are still served.
pub proof fn law_a_start_fails_with_its_connection_alone(step: StartupStep)
    ensures
        match step {
            StartupStep::ConnectBroker { .. } => step.essential(),
            StartupStep::EnableManagement { .. } => step.essential(),
            StartupStep::PersistDevices { .. } => !step.essential(),
            StartupStep::ForwardLogs { .. } => !step.essential(),
            StartupStep::SpawnEventLoop => !step.essential(),
            StartupStep::PauseMillis(_) => !step.essential(),
            StartupStep::Register { .. } => !step.essential(),
            StartupStep::SubscribeCommands { .. } => !step.essential(),
            StartupStep::PublishAvailable { .. } => !step.essential(),
            StartupStep::Reconcile { .. } => !step.essential(),
            StartupStep::RunBridge => !step.essential(),
        },
{
}

/// The words of an error on loading say what failed, and end in the path, a colon
/// and the whole reason.
pub proof fn law_loading_errors_name_the_file_and_the_reason(error: ConfigError)
    ensures
        error matches ConfigError::CannotRead { path, reason } ==> error.explanation()
            == "Cannot read config "@ + path@ + ": "@ + reason@,
        error matches ConfigError::CannotParse { path, reason } ==> error.explanation()
            == "Config parse error in "@ + path@ + ": "@ + reason@,
{
}

} // verus!
