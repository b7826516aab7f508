//! The session with the Caseta bridge: how it is set up, and what follows when it
//! ends.
//!
//! The session is a state machine. It is told what happened and answers with
//! what to do.

use crate::bridge::{is_walk, Bridge};
use crate::device::DeviceEntry;
use vstd::prelude::*;

verus! {

broadcast use {vstd::string::group_string_axioms, Seq::lemma_flat_map_take_append};

/// How long to wait between two initial queries.
pub const QUERY_PAUSE_MILLIS: u64 = 50;

/// How often the bridge is sent a sign of life.
pub const KEEPALIVE_SECS: u64 = 60;

/// Where the session stands.
#[derive(Debug, Clone, Copy, PartialEq, Eq, Structural)]
pub enum Phase {
    /// A connection is being set up.
    Connecting,
    /// Messages and commands are being served.
    Live,
    /// The session has ended, and the next one is some time off.
    Resting,
}

/// What happened to the session.
#[derive(Debug, Clone, Copy, PartialEq, Eq, Structural)]
pub enum SessionEvent {
    Connected,
    ConnectFailed,
    /// No message could be read.
    LinkLost,
    /// No command will come any more.
    CommandsClosed,
    /// The time to rest is over.
    Rested,
}

/// What to do about the session.
#[derive(Debug, PartialEq, Eq)]
pub enum SessionAction {
    Connect,
    PublishAvailability { hc_id: String, available: bool },
    /// Ask the bridge for the level of an output.
    QueryLevel { integration_id: u32 },
    PauseMillis(u64),
    StartKeepalive { every_secs: u64 },
    StopKeepalive,
    RestSecs(u64),
}

/// The content of a [`SessionAction`].
pub enum SessionActionView {
    Connect,
    PublishAvailability { hc_id: Seq<char>, available: bool },
    QueryLevel { integration_id: u32 },
    PauseMillis(u64),
    StartKeepalive { every_secs: u64 },
    StopKeepalive,
    RestSecs(u64),
}

impl View for SessionAction {
    type V = SessionActionView;

    open spec fn view(&self) -> SessionActionView {
        match self {
            SessionAction::Connect => SessionActionView::Connect,
            SessionAction::PublishAvailability { hc_id, available } => {
                SessionActionView::PublishAvailability { hc_id: hc_id@, available: *available }
            },
            SessionAction::QueryLevel { integration_id } => SessionActionView::QueryLevel {
                integration_id: *integration_id,
            },
            SessionAction::PauseMillis(millis) => SessionActionView::PauseMillis(*millis),
            SessionAction::StartKeepalive { every_secs } => SessionActionView::StartKeepalive {
                every_secs: *every_secs,
            },
            SessionAction::StopKeepalive => SessionActionView::StopKeepalive,
            SessionAction::RestSecs(secs) => SessionActionView::RestSecs(*secs),
        }
    }
}

/// The contents of several actions.
pub open spec fn seen(actions: Seq<SessionAction>) -> Seq<SessionActionView> {
    actions.map_values(|action: SessionAction| action@)
}

/// The announcement of every device, in the order `order`.
pub open spec fn announcement(
    devices: Map<u32, DeviceEntry>,
    order: Seq<u32>,
    available: bool,
) -> Seq<SessionActionView> {
    order.map_values(
        |id: u32| SessionActionView::PublishAvailability { hc_id: devices[id].hc_id@, available },
    )
}

/// Whether `said` announces every device once, in some order.
pub open spec fn announces(
    devices: Map<u32, DeviceEntry>,
    available: bool,
    said: Seq<SessionActionView>,
) -> bool {
    exists|order: Seq<u32>| #[trigger]
        is_walk(order, devices.dom()) && said == announcement(devices, order, available)
}

/// How a device is asked for its initial state: an output for its level, with a
/// pause behind it, and any other device not at all.
pub open spec fn query_of(dev: DeviceEntry) -> Seq<SessionActionView> {
    if dev.config.kind.has_level() {
        seq![
            SessionActionView::QueryLevel { integration_id: dev.config.integration_id },
            SessionActionView::PauseMillis(QUERY_PAUSE_MILLIS),
        ]
    } else {
        Seq::empty()
    }
}

/// The queries to all devices, in the order `order`.
pub open spec fn initial_queries(devices: Map<u32, DeviceEntry>, order: Seq<u32>) -> Seq<
    SessionActionView,
> {
    order.flat_map(|id: u32| query_of(devices[id]))
}

/// Whether `asked` asks every device once, in some order.
pub open spec fn asks(devices: Map<u32, DeviceEntry>, asked: Seq<SessionActionView>) -> bool {
    exists|order: Seq<u32>| #[trigger]
        is_walk(order, devices.dom()) && asked == initial_queries(devices, order)
}

/// Where the session stands after an event. An event that does not belong to the
/// phase changes nothing.
pub open spec fn next_phase(phase: Phase, event: SessionEvent) -> Phase {
    match (phase, event) {
        (Phase::Connecting, SessionEvent::Connected) => Phase::Live,
        (Phase::Connecting, SessionEvent::ConnectFailed) => Phase::Resting,
        (Phase::Live, SessionEvent::LinkLost) => Phase::Resting,
        (Phase::Live, SessionEvent::CommandsClosed) => Phase::Resting,
        (Phase::Resting, SessionEvent::Rested) => Phase::Connecting,
        _ => phase,
    }
}

/// Whether `actions` are those of a session that has come up: all devices are
/// announced as available and asked for their initial states, and the keepalive
/// starts.
pub open spec fn comes_up(
    devices: Map<u32, DeviceEntry>,
    actions: Seq<SessionActionView>,
) -> bool {
    exists|said: Seq<SessionActionView>, asked: Seq<SessionActionView>|
        {
            &&& #[trigger] announces(devices, true, said)
            &&& #[trigger] asks(devices, asked)
            &&& actions == (said + asked).push(
                SessionActionView::StartKeepalive { every_secs: KEEPALIVE_SECS },
            )
        }
}

/// Whether `actions` are those of a session that has ended: all devices are
/// announced as unavailable, and the plugin rests.
pub open spec fn winds_down(
    devices: Map<u32, DeviceEntry>,
    rest_secs: u64,
    actions: Seq<SessionActionView>,
) -> bool {
    exists|said: Seq<SessionActionView>|
        {
            &&& #[trigger] announces(devices, false, said)
            &&& actions == said.push(SessionActionView::RestSecs(rest_secs))
        }
}

/// Whether `actions` are what is to be done about an event. About an event that
/// does not belong to the phase, nothing is.
pub open spec fn answers(
    devices: Map<u32, DeviceEntry>,
    rest_secs: u64,
    phase: Phase,
    event: SessionEvent,
    actions: Seq<SessionActionView>,
) -> bool {
    match (phase, event) {
        (Phase::Connecting, SessionEvent::Connected) => comes_up(devices, actions),
        (Phase::Connecting, SessionEvent::ConnectFailed) => winds_down(devices, rest_secs, actions),
        (Phase::Live, SessionEvent::LinkLost) => winds_down(devices, rest_secs, actions),
        (Phase::Live, SessionEvent::CommandsClosed) => {
            &&& actions.len() > 0
            &&& actions.first() is StopKeepalive
            &&& winds_down(devices, rest_secs, actions.drop_first())
        },
        (Phase::Resting, SessionEvent::Rested) => actions == seq![SessionActionView::Connect],
        _ => actions.len() == 0,
    }
}

impl Bridge {
    /// Announces every device.
    pub fn announce(&self, available: bool) -> (actions: Vec<SessionAction>)
        ensures
            announces(self.devices(), available, seen(actions@)),
    {
        let ids = self.device_ids();
        let ghost said = announcement(self.devices(), ids@, available);
        let mut actions: Vec<SessionAction> = Vec::new();
        assert(seen(actions@) =~= said.take(0));
        for i in 0..ids.len()
            invariant
                is_walk(ids@, self.devices().dom()),
                said == announcement(self.devices(), ids@, available),
                seen(actions@) == said.take(i as int),
        {
            let id = ids[i];
            assert(ids@.to_set().contains(id));
            if let Some(dev) = self.device(id) {
                let ghost earlier = actions@;
                actions.push(
                    SessionAction::PublishAvailability { hc_id: dev.hc_id.clone(), available },
                );
                assert(seen(actions@) =~= seen(earlier).push(said[i as int]));
            }
            assert(seen(actions@) =~= said.take(i + 1));
        }
        assert(said.take(ids.len() as int) =~= said);
        actions
    }

    /// Asks every output for its level.
    pub fn query_initial_states(&self) -> (actions: Vec<SessionAction>)
        ensures
            asks(self.devices(), seen(actions@)),
    {
        let ids = self.device_ids();
        let ghost ask = |id: u32| query_of(self.devices()[id]);
        let mut actions: Vec<SessionAction> = Vec::new();
        assert(seen(actions@) =~= ids@.take(0).flat_map(ask));
        for i in 0..ids.len()
            invariant
                is_walk(ids@, self.devices().dom()),
                ask == (|id: u32| query_of(self.devices()[id])),
                seen(actions@) == ids@.take(i as int).flat_map(ask),
        {
            let id = ids[i];
            assert(ids@.to_set().contains(id));
            if let Some(dev) = self.device(id) {
                let ghost earlier = actions@;
                if dev.is_output() {
                    actions.push(
                        SessionAction::QueryLevel { integration_id: dev.config.integration_id },
                    );
                    actions.push(SessionAction::PauseMillis(QUERY_PAUSE_MILLIS));
                }
                assert(seen(actions@) =~= seen(earlier) + query_of(*dev));
            }
            assert(seen(actions@) =~= ids@.take(i + 1).flat_map(ask));
        }
        assert(ids@.take(ids.len() as int) =~= ids@);
        actions
    }

    /// Winds the session down.
    fn wind_down(&self) -> (actions: Vec<SessionAction>)
        ensures
            winds_down(self.devices(), self.caseta().reconnect_delay_secs, seen(actions@)),
    {
        let mut actions = self.announce(false);
        let ghost said = actions@;
        let rest_secs = self.caseta_config().reconnect_delay_secs;
        actions.push(SessionAction::RestSecs(rest_secs));
        assert(seen(actions@) =~= seen(said).push(SessionActionView::RestSecs(rest_secs)));
        actions
    }

    /// Decides where the session goes after an event, and what to do.
    pub fn step(&self, phase: Phase, event: SessionEvent) -> (next: (Phase, Vec<SessionAction>))
        ensures
            next.0 == next_phase(phase, event),
            answers(
                self.devices(),
                self.caseta().reconnect_delay_secs,
                phase,
                event,
                seen(next.1@),
            ),
    {
        match (phase, event) {
            (Phase::Connecting, SessionEvent::Connected) => {
                let mut actions = self.announce(true);
                let ghost said = actions@;
                let mut queries = self.query_initial_states();
                let ghost asked = queries@;
                actions.append(&mut queries);
                actions.push(SessionAction::StartKeepalive { every_secs: KEEPALIVE_SECS });
                assert(seen(actions@) =~= (seen(said) + seen(asked)).push(
                    SessionActionView::StartKeepalive { every_secs: KEEPALIVE_SECS },
                ));
                (Phase::Live, actions)
            },
            (Phase::Connecting, SessionEvent::ConnectFailed) => (Phase::Resting, self.wind_down()),
            (Phase::Live, SessionEvent::LinkLost) => (Phase::Resting, self.wind_down()),
            (Phase::Live, SessionEvent::CommandsClosed) => {
                let mut actions: Vec<SessionAction> = Vec::new();
                actions.push(SessionAction::StopKeepalive);
                let mut rest = self.wind_down();
                let ghost down = rest@;
                actions.append(&mut rest);
                assert(seen(actions@).drop_first() =~= seen(down));
                (Phase::Resting, actions)
            },
            (Phase::Resting, SessionEvent::Rested) => {
                let mut actions: Vec<SessionAction> = Vec::new();
                actions.push(SessionAction::Connect);
                assert(seen(actions@) =~= seq![SessionActionView::Connect]);
                (Phase::Connecting, actions)
            },
            _ => (phase, Vec::new()),
        }
    }
}

} // verus!
