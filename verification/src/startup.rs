//! Starting the plugin: what is done in which order, and what follows when it
//! fails.

use crate::config::HomecoreConfig;
use crate::device::DeviceEntry;
use crate::paths::{beside, published_ids_cache_path};
use crate::text::{text_seen, texts_seen};
use vstd::prelude::*;

verus! {

broadcast use {vstd::string::group_string_axioms, Seq::lemma_flat_map_take_append};

/// How often the plugin tries to start.
pub const MAX_ATTEMPTS: u32 = 3;

/// How long it waits between two attempts.
pub const RETRY_DELAY_SECS: u64 = 60;

/// How often the management protocol sends a heartbeat.
pub const HEARTBEAT_SECS: u64 = 60;

/// How long the event loop is given to connect before devices are registered.
pub const SETTLE_MILLIS: u64 = 100;

/// The path of the configuration where the command line names none.
pub open spec fn default_config_path() -> Seq<char> {
    "config/config.toml"@
}

/// The path of the configuration, given what the command line names.
pub open spec fn chosen_path(argument: Option<String>) -> Seq<char> {
    match argument {
        Some(given) => given@,
        None => default_config_path(),
    }
}

/// The path of the configuration.
pub fn config_path(argument: Option<String>) -> (path: String)
    ensures
        path@ == match argument {
            Some(given) => given@,
            None => default_config_path(),
        },
        path@ == chosen_path(argument),
{
    match argument {
        Some(given) => given,
        None => "config/config.toml".to_owned(),
    }
}

// ---------------------------------------------------------------------------
// Attempts
// ---------------------------------------------------------------------------

/// What follows an attempt to start.
#[derive(Debug, Clone, Copy, PartialEq, Eq, Structural)]
pub enum AfterAttempt {
    /// The plugin has run and is done.
    Finish,
    /// Try once more, after a while.
    RetryIn { secs: u64 },
    /// Exit with a failure.
    GiveUp,
}

/// What follows the attempt with the number `attempt`, counted from one.
pub open spec fn follow_up(attempt: u32, started: bool) -> AfterAttempt {
    if started {
        AfterAttempt::Finish
    } else if attempt < MAX_ATTEMPTS {
        AfterAttempt::RetryIn { secs: RETRY_DELAY_SECS }
    } else {
        AfterAttempt::GiveUp
    }
}

/// Decides what follows the attempt with the number `attempt`, counted from one.
pub fn after_attempt(attempt: u32, started: bool) -> (next: AfterAttempt)
    ensures
        next == follow_up(attempt, started),
{
    if started {
        AfterAttempt::Finish
    } else if attempt < MAX_ATTEMPTS {
        AfterAttempt::RetryIn { secs: RETRY_DELAY_SECS }
    } else {
        AfterAttempt::GiveUp
    }
}

/// How many attempts are made from the one with the number `attempt` on, when
/// `outcomes` tells how each of them ends.
pub open spec fn attempts_made(attempt: u32, outcomes: spec_fn(u32) -> bool) -> nat
    decreases MAX_ATTEMPTS - attempt,
{
    if follow_up(attempt, outcomes(attempt)) is RetryIn {
        1 + attempts_made((attempt + 1) as u32, outcomes)
    } else {
        1
    }
}

/// The plugin tries to start at least once and at most `MAX_ATTEMPTS` times, and
/// it tries that often exactly if all attempts before the last fail.
pub proof fn law_attempts_are_limited(outcomes: spec_fn(u32) -> bool)
    ensures
        1 <= attempts_made(1, outcomes) <= MAX_ATTEMPTS,
        attempts_made(1, outcomes) == MAX_ATTEMPTS <==> forall|k: u32|
            1 <= k < MAX_ATTEMPTS ==> !#[trigger] outcomes(k),
{
    reveal_with_fuel(attempts_made, 4);
    assert(outcomes(1) || !outcomes(1));
    assert(outcomes(2) || !outcomes(2));
}

// ---------------------------------------------------------------------------
// One attempt
// ---------------------------------------------------------------------------

/// A step of starting the plugin.
#[derive(Debug, PartialEq, Eq)]
pub enum StartupStep {
    ConnectBroker { broker_host: String, broker_port: u16, plugin_id: String, password: String },
    /// Remember the published devices in a file.
    PersistDevices { path: String },
    ForwardLogs { plugin_id: String },
    EnableManagement { heartbeat_secs: u64, config_path: String },
    SpawnEventLoop,
    PauseMillis(u64),
    Register { hc_id: String, name: String, device_type: String, area: Option<String> },
    SubscribeCommands { hc_id: String },
    PublishAvailable { hc_id: String },
    /// Unregister every device of an earlier session that is not among these.
    Reconcile { live: Vec<String> },
    RunBridge,
}

/// The content of a [`StartupStep`].
pub enum StartupStepView {
    ConnectBroker {
        broker_host: Seq<char>,
        broker_port: u16,
        plugin_id: Seq<char>,
        password: Seq<char>,
    },
    PersistDevices { path: Seq<char> },
    ForwardLogs { plugin_id: Seq<char> },
    EnableManagement { heartbeat_secs: u64, config_path: Seq<char> },
    SpawnEventLoop,
    PauseMillis(u64),
    Register {
        hc_id: Seq<char>,
        name: Seq<char>,
        device_type: Seq<char>,
        area: Option<Seq<char>>,
    },
    SubscribeCommands { hc_id: Seq<char> },
    PublishAvailable { hc_id: Seq<char> },
    Reconcile { live: Seq<Seq<char>> },
    RunBridge,
}

impl View for StartupStep {
    type V = StartupStepView;

    open spec fn view(&self) -> StartupStepView {
        match self {
            StartupStep::ConnectBroker { broker_host, broker_port, plugin_id, password } => {
                StartupStepView::ConnectBroker {
                    broker_host: broker_host@,
                    broker_port: *broker_port,
                    plugin_id: plugin_id@,
                    password: password@,
                }
            },
            StartupStep::PersistDevices { path } => StartupStepView::PersistDevices { path: path@ },
            StartupStep::ForwardLogs { plugin_id } => StartupStepView::ForwardLogs {
                plugin_id: plugin_id@,
            },
            StartupStep::EnableManagement { heartbeat_secs, config_path } => {
                StartupStepView::EnableManagement {
                    heartbeat_secs: *heartbeat_secs,
                    config_path: config_path@,
                }
            },
            StartupStep::SpawnEventLoop => StartupStepView::SpawnEventLoop,
            StartupStep::PauseMillis(millis) => StartupStepView::PauseMillis(*millis),
            StartupStep::Register { hc_id, name, device_type, area } => StartupStepView::Register {
                hc_id: hc_id@,
                name: name@,
                device_type: device_type@,
                area: text_seen(*area),
            },
            StartupStep::SubscribeCommands { hc_id } => StartupStepView::SubscribeCommands {
                hc_id: hc_id@,
            },
            StartupStep::PublishAvailable { hc_id } => StartupStepView::PublishAvailable {
                hc_id: hc_id@,
            },
            StartupStep::Reconcile { live } => StartupStepView::Reconcile {
                live: texts_seen(live@),
            },
            StartupStep::RunBridge => StartupStepView::RunBridge,
        }
    }
}

impl StartupStep {
    /// Whether the attempt ends when this step fails.
    pub open spec fn essential(self) -> bool {
        self is ConnectBroker || self is EnableManagement
    }

    /// Whether the attempt ends when this step fails. A failure of any other step
    /// is noted, and the attempt goes on.
    pub fn is_essential(&self) -> (yes: bool)
        ensures
            yes == (self is ConnectBroker || self is EnableManagement),
            yes == self.essential(),
    {
        match self {
            StartupStep::ConnectBroker { .. } => true,
            StartupStep::EnableManagement { .. } => true,
            _ => false,
        }
    }
}

/// The contents of several steps.
pub open spec fn steps_seen(steps: Seq<StartupStep>) -> Seq<StartupStepView> {
    steps.map_values(|step: StartupStep| step@)
}

/// The steps before the devices are registered, where published devices are
/// remembered in `cache`. The event loop runs before anything is published.
pub open spec fn opening_steps(
    homecore: HomecoreConfig,
    config_path: Seq<char>,
    cache: Seq<char>,
) -> Seq<StartupStepView> {
    seq![
        StartupStepView::ConnectBroker {
            broker_host: homecore.broker_host@,
            broker_port: homecore.broker_port,
            plugin_id: homecore.plugin_id@,
            password: homecore.password@,
        },
        StartupStepView::PersistDevices { path: cache },
        StartupStepView::ForwardLogs { plugin_id: homecore.plugin_id@ },
        StartupStepView::EnableManagement { heartbeat_secs: HEARTBEAT_SECS, config_path },
        StartupStepView::SpawnEventLoop,
        StartupStepView::PauseMillis(SETTLE_MILLIS),
    ]
}

/// The steps for one device.
pub open spec fn device_steps(dev: DeviceEntry) -> Seq<StartupStepView> {
    seq![
        StartupStepView::Register {
            hc_id: dev.hc_id@,
            name: dev.config.name@,
            device_type: dev.config.kind.device_type(),
            area: text_seen(dev.config.area),
        },
        StartupStepView::SubscribeCommands { hc_id: dev.hc_id@ },
        StartupStepView::PublishAvailable { hc_id: dev.hc_id@ },
    ]
}

/// The names of the devices.
pub open spec fn live_names(devices: Seq<DeviceEntry>) -> Seq<Seq<char>> {
    devices.map_values(|dev: DeviceEntry| dev.hc_id@)
}

/// The steps of one attempt, where published devices are remembered in `cache`.
pub open spec fn all_steps(
    homecore: HomecoreConfig,
    config_path: Seq<char>,
    cache: Seq<char>,
    devices: Seq<DeviceEntry>,
) -> Seq<StartupStepView> {
    opening_steps(homecore, config_path, cache) + devices.flat_map(
        |dev: DeviceEntry| device_steps(dev),
    ) + seq![
        StartupStepView::Reconcile { live: live_names(devices) },
        StartupStepView::RunBridge,
    ]
}

fn open_plan(homecore: &HomecoreConfig, config_path: &str, cache: String) -> (steps: Vec<
    StartupStep,
>)
    ensures
        steps_seen(steps@) == opening_steps(*homecore, config_path@, cache@),
{
    let mut steps: Vec<StartupStep> = Vec::new();
    steps.push(
        StartupStep::ConnectBroker {
            broker_host: homecore.broker_host.clone(),
            broker_port: homecore.broker_port,
            plugin_id: homecore.plugin_id.clone(),
            password: homecore.password.clone(),
        },
    );
    steps.push(StartupStep::PersistDevices { path: cache });
    steps.push(StartupStep::ForwardLogs { plugin_id: homecore.plugin_id.clone() });
    steps.push(
        StartupStep::EnableManagement {
            heartbeat_secs: HEARTBEAT_SECS,
            config_path: config_path.to_owned(),
        },
    );
    steps.push(StartupStep::SpawnEventLoop);
    steps.push(StartupStep::PauseMillis(SETTLE_MILLIS));
    assert(steps_seen(steps@) =~= opening_steps(*homecore, config_path@, cache@));
    steps
}

fn copy_text(text: &Option<String>) -> (copy: Option<String>)
    ensures
        text_seen(copy) == text_seen(*text),
{
    match text {
        Some(text) => Some(text.clone()),
        None => None,
    }
}

/// Plans one attempt to start the plugin with these devices.
pub fn startup_plan(homecore: &HomecoreConfig, config_path: &str, devices: &Vec<DeviceEntry>) -> (steps:
    Vec<StartupStep>)
    ensures
        exists|cache: Seq<char>|
            {
                &&& #[trigger] beside(config_path@, cache)
                &&& steps_seen(steps@) == all_steps(*homecore, config_path@, cache, devices@)
            },
{
    let cache = published_ids_cache_path(config_path);
    let ghost cache_text = cache@;
    let mut steps = open_plan(homecore, config_path, cache);
    let mut live: Vec<String> = Vec::new();
    let ghost opening = opening_steps(*homecore, config_path@, cache_text);
    let ghost each = |dev: DeviceEntry| device_steps(dev);
    assert(steps_seen(steps@) =~= opening + devices@.take(0).flat_map(each));
    for i in 0..devices.len()
        invariant
            each == (|dev: DeviceEntry| device_steps(dev)),
            steps_seen(steps@) == opening + devices@.take(i as int).flat_map(each),
            texts_seen(live@) == live_names(devices@).take(i as int),
    {
        let dev = &devices[i];
        let ghost steps_before = steps@;
        let ghost live_before = live@;
        steps.push(
            StartupStep::Register {
                hc_id: dev.hc_id.clone(),
                name: dev.config.name.clone(),
                device_type: dev.homecore_device_type().to_owned(),
                area: copy_text(&dev.config.area),
            },
        );
        steps.push(StartupStep::SubscribeCommands { hc_id: dev.hc_id.clone() });
        steps.push(StartupStep::PublishAvailable { hc_id: dev.hc_id.clone() });
        live.push(dev.hc_id.clone());
        assert(steps_seen(steps@) =~= steps_seen(steps_before) + device_steps(*dev));
        assert(steps_seen(steps@) =~= opening + devices@.take(i + 1).flat_map(each));
        assert(texts_seen(live@) =~= texts_seen(live_before).push(dev.hc_id@));
        assert(texts_seen(live@) =~= live_names(devices@).take(i + 1));
    }
    assert(devices@.take(devices.len() as int) =~= devices@);
    assert(live_names(devices@).take(devices.len() as int) =~= live_names(devices@));
    steps.push(StartupStep::Reconcile { live });
    steps.push(StartupStep::RunBridge);
    assert(steps_seen(steps@) =~= all_steps(*homecore, config_path@, cache_text, devices@));
    steps
}

/// Each device is registered, then subscribed to, then announced, device after
/// device, and the event loop runs before the first of them. The last steps are
/// to drop what is no longer configured, where exactly the registered devices
/// stay, and to run the bridge.
pub proof fn law_steps_come_in_order(
    homecore: HomecoreConfig,
    config_path: Seq<char>,
    cache: Seq<char>,
    devices: Seq<DeviceEntry>,
)
    ensures
        ({
            let steps = all_steps(homecore, config_path, cache, devices);
            let first = opening_steps(homecore, config_path, cache).len() as int;
            let n = devices.len() as int;
            &&& exists|k: int| 0 <= k < first && #[trigger] steps[k] is SpawnEventLoop
            &&& steps.len() == first + 3 * n + 2
            &&& forall|k: int|
                0 <= k < n ==> {
                    &&& steps[first + 3 * k] == #[trigger] device_steps(devices[k])[0]
                    &&& steps[first + 3 * k + 1] == device_steps(devices[k])[1]
                    &&& steps[first + 3 * k + 2] == device_steps(devices[k])[2]
                }
            &&& steps[first + 3 * n] == StartupStepView::Reconcile { live: live_names(devices) }
            &&& steps[first + 3 * n + 1] is RunBridge
        }),
{
    let steps = all_steps(homecore, config_path, cache, devices);
    let first = opening_steps(homecore, config_path, cache).len() as int;
    assert(steps[4] is SpawnEventLoop);
    lemma_device_steps(devices, devices.len() as int);
    assert(devices.take(devices.len() as int) =~= devices);
    let middle = devices.flat_map(|dev: DeviceEntry| device_steps(dev));
    assert forall|k: int| 0 <= k < devices.len() implies {
        &&& steps[first + 3 * k] == #[trigger] device_steps(devices[k])[0]
        &&& steps[first + 3 * k + 1] == device_steps(devices[k])[1]
        &&& steps[first + 3 * k + 2] == device_steps(devices[k])[2]
    } by {
        assert(middle[3 * k] == device_steps(devices[k])[0]);
        assert(steps[first + 3 * k] == middle[3 * k]);
        assert(steps[first + 3 * k + 1] == middle[3 * k + 1]);
        assert(steps[first + 3 * k + 2] == middle[3 * k + 2]);
    }
}

proof fn lemma_device_steps(devices: Seq<DeviceEntry>, n: int)
    requires
        0 <= n <= devices.len(),
    ensures
        ({
            let steps = devices.take(n).flat_map(|dev: DeviceEntry| device_steps(dev));
            &&& steps.len() == 3 * n
            &&& forall|k: int|
                0 <= k < n ==> {
                    &&& steps[3 * k] == #[trigger] device_steps(devices[k])[0]
                    &&& steps[3 * k + 1] == device_steps(devices[k])[1]
                    &&& steps[3 * k + 2] == device_steps(devices[k])[2]
                }
        }),
    decreases n,
{
    let each = |dev: DeviceEntry| device_steps(dev);
    if n > 0 {
        lemma_device_steps(devices, n - 1);
        devices.lemma_flat_map_take_append(each, n - 1);
    } else {
        assert(devices.take(0).flat_map(each) =~= Seq::empty());
    }
}

} // verus!
