//! What holds of every session.

use crate::bridge::is_walk;
use crate::config::DeviceKind;
use crate::device::DeviceEntry;
use crate::session::{
    announcement, announces, answers, asks, initial_queries, next_phase, query_of, seen, Phase,
    SessionAction, SessionActionView, SessionEvent,
};
use vstd::prelude::*;

verus! {

broadcast use vstd::string::group_string_axioms;

/// A walk names each device once: two places in it never name the same one, and
/// exactly the known devices are named.
pub proof fn law_a_walk_names_each_device_once(devices: Map<u32, DeviceEntry>, order: Seq<u32>)
    requires
        is_walk(order, devices.dom()),
    ensures
        forall|i: int, j: int|
            0 <= i < j < order.len() ==> #[trigger] order[i] != #[trigger] order[j],
        forall|i: int| 0 <= i < order.len() ==> devices.contains_key(#[trigger] order[i]),
        forall|id: u32| #[trigger]
            devices.contains_key(id) ==> exists|i: int| 0 <= i < order.len() && order[i] == id,
{
    assert forall|i: int| 0 <= i < order.len() implies devices.contains_key(
        #[trigger] order[i],
    ) by {
        assert(order.to_set().contains(order[i]));
    }
    assert forall|id: u32| #[trigger] devices.contains_key(id) implies exists|i: int|
        0 <= i < order.len() && order[i] == id by {
        assert(order.to_set().contains(id));
    }
}

/// An announcement publishes, for each device once and under its name, whether it
/// is available, and does nothing else.
pub proof fn law_an_announcement_names_each_device_once(
    devices: Map<u32, DeviceEntry>,
    available: bool,
    actions: Seq<SessionAction>,
)
    requires
        announces(devices, available, seen(actions)),
    ensures
        exists|order: Seq<u32>|
            {
                &&& #[trigger] order.no_duplicates()
                &&& forall|id: u32| order.contains(id) <==> #[trigger] devices.contains_key(id)
                &&& actions.len() == order.len()
                &&& forall|i: int|
                    0 <= i < actions.len() ==> (#[trigger] actions[i]
                        matches SessionAction::PublishAvailability { hc_id, available: told }
                        && hc_id@ == devices[order[i]].hc_id@ && told == available)
            },
{
    let order = choose|order: Seq<u32>| #[trigger]
        is_walk(order, devices.dom()) && seen(actions) == announcement(devices, order, available);
    assert(seen(actions).len() == actions.len());
    assert forall|id: u32| order.contains(id) <==> #[trigger] devices.contains_key(id) by {
        assert(order.to_set().contains(id) == devices.dom().contains(id));
    }
    assert forall|i: int| 0 <= i < actions.len() implies (#[trigger] actions[i]
        matches SessionAction::PublishAvailability { hc_id, available: told } && hc_id@
        == devices[order[i]].hc_id@ && told == available) by {
        assert(seen(actions)[i] == actions[i]@);
    }
}

/// The initial queries ask each dimmer, switch, shade and fan control once for its
/// level, with a pause of 50 milliseconds behind each question, and do nothing else.
pub proof fn law_the_queries_ask_each_output_once(
    devices: Map<u32, DeviceEntry>,
    actions: Seq<SessionAction>,
)
    requires
        asks(devices, seen(actions)),
    ensures
        exists|outputs: Seq<u32>|
            {
                &&& #[trigger] outputs.no_duplicates()
                &&& forall|id: u32|
                    outputs.contains(id) <==> #[trigger] devices.contains_key(id) && match devices[id].config.kind {
                        DeviceKind::Dimmer => true,
                        DeviceKind::Switch => true,
                        DeviceKind::Shade => true,
                        DeviceKind::FanControl => true,
                        DeviceKind::Pico => false,
                        DeviceKind::OccupancySensor => false,
                    }
                &&& actions.len() == 2 * outputs.len()
                &&& forall|j: int|
                    0 <= j < outputs.len() ==> {
                        &&& actions[2 * j] == (SessionAction::QueryLevel {
                            integration_id: devices[#[trigger] outputs[j]].config.integration_id,
                        })
                        &&& actions[2 * j + 1] == SessionAction::PauseMillis(50)
                    }
            },
{
    let order = choose|order: Seq<u32>| #[trigger]
        is_walk(order, devices.dom()) && seen(actions) == initial_queries(devices, order);
    let outputs = lemma_outputs(devices, order, order.len() as int);
    assert(order.take(order.len() as int) =~= order);
    assert(seen(actions).len() == actions.len());
    assert forall|id: u32|
        outputs.contains(id) <==> #[trigger] devices.contains_key(id) && match devices[id].config.kind {
            DeviceKind::Dimmer => true,
            DeviceKind::Switch => true,
            DeviceKind::Shade => true,
            DeviceKind::FanControl => true,
            DeviceKind::Pico => false,
            DeviceKind::OccupancySensor => false,
        } by {
        assert(order.to_set().contains(id) == devices.dom().contains(id));
    }
    assert forall|j: int| 0 <= j < outputs.len() implies {
        &&& actions[2 * j] == (SessionAction::QueryLevel {
            integration_id: devices[#[trigger] outputs[j]].config.integration_id,
        })
        &&& actions[2 * j + 1] == SessionAction::PauseMillis(50)
    } by {
        assert(seen(actions)[2 * j] == actions[2 * j]@);
        assert(seen(actions)[2 * j + 1] == actions[2 * j + 1]@);
    }
}

proof fn lemma_outputs(devices: Map<u32, DeviceEntry>, order: Seq<u32>, n: int) -> (outputs: Seq<
    u32,
>)
    requires
        0 <= n <= order.len(),
        order.no_duplicates(),
    ensures
        outputs.no_duplicates(),
        forall|id: u32| #[trigger]
            outputs.contains(id) <==> order.take(n).contains(id)
                && devices[id].config.kind.has_level(),
        initial_queries(devices, order.take(n)).len() == 2 * outputs.len(),
        forall|j: int|
            0 <= j < outputs.len() ==> {
                &&& initial_queries(devices, order.take(n))[2 * j]
                    == (SessionActionView::QueryLevel {
                    integration_id: devices[#[trigger] outputs[j]].config.integration_id,
                })
                &&& initial_queries(devices, order.take(n))[2 * j + 1]
                    == SessionActionView::PauseMillis(50)
            },
    decreases n,
{
    let each = |id: u32| query_of(devices[id]);
    if n == 0 {
        assert(initial_queries(devices, order.take(0)) =~= Seq::empty());
        Seq::empty()
    } else {
        let before = lemma_outputs(devices, order, n - 1);
        let last = order[n - 1];
        order.lemma_flat_map_take_append(each, n - 1);
        assert(order.take(n) =~= order.take(n - 1).push(last));
        assert(!order.take(n - 1).contains(last));
        assert(initial_queries(devices, order.take(n)) == initial_queries(devices, order.take(n - 1))
            + query_of(devices[last]));
        assert forall|id: u32|
            order.take(n).contains(id) <==> #[trigger] order.take(n - 1).contains(id) || id
                == last by {
            if order.take(n - 1).contains(id) {
                let shorter = order.take(n - 1);
                let i = choose|i: int| 0 <= i < shorter.len() && shorter[i] == id;
                assert(order.take(n)[i] == id);
            }
            if id == last {
                assert(order.take(n)[n - 1] == id);
            }
        }
        if devices[last].config.kind.has_level() {
            let outputs = before.push(last);
            assert(!before.contains(last));
            assert forall|id: u32| #[trigger]
                outputs.contains(id) <==> order.take(n).contains(id)
                    && devices[id].config.kind.has_level() by {
                assert(before.contains(id) <==> order.take(n - 1).contains(id)
                    && devices[id].config.kind.has_level());
                if outputs.contains(id) {
                    let i = choose|i: int| 0 <= i < outputs.len() && outputs[i] == id;
                    if i < before.len() {
                        assert(before[i] == id);
                    }
                }
                if before.contains(id) {
                    let i = choose|i: int| 0 <= i < before.len() && before[i] == id;
                    assert(outputs[i] == id);
                }
                if id == last {
                    assert(outputs[before.len() as int] == id);
                }
            }
            assert forall|j: int| 0 <= j < outputs.len() implies {
                &&& initial_queries(devices, order.take(n))[2 * j]
                    == (SessionActionView::QueryLevel {
                    integration_id: devices[#[trigger] outputs[j]].config.integration_id,
                })
                &&& initial_queries(devices, order.take(n))[2 * j + 1]
                    == SessionActionView::PauseMillis(50)
            } by {
                if j < before.len() {
                    assert(outputs[j] == before[j]);
                }
            }
            outputs
        } else {
            assert forall|id: u32| #[trigger]
                before.contains(id) <==> order.take(n).contains(id)
                    && devices[id].config.kind.has_level() by {
                assert(order.take(n).contains(id) <==> order.take(n - 1).contains(id) || id
                    == last);
            }
            assert(initial_queries(devices, order.take(n)) =~= initial_queries(
                devices,
                order.take(n - 1),
            ));
            before
        }
    }
}

/// When a connection is set up, all devices are announced as available, then all
/// outputs are asked, and last the keepalive starts, every 60 seconds.
pub proof fn law_a_session_comes_up_with_its_devices(
    devices: Map<u32, DeviceEntry>,
    rest_secs: u64,
    actions: Seq<SessionAction>,
)
    requires
        answers(devices, rest_secs, Phase::Connecting, SessionEvent::Connected, seen(actions)),
    ensures
        actions.len() > 0,
        actions[actions.len() - 1] == (SessionAction::StartKeepalive { every_secs: 60 }),
        exists|n: int|
            {
                &&& 0 <= n < actions.len()
                &&& announces(devices, true, seen(#[trigger] actions.subrange(0, n)))
                &&& asks(devices, seen(actions.subrange(n, actions.len() - 1)))
            },
{
    let (said, asked) = choose|said: Seq<SessionActionView>, asked: Seq<SessionActionView>|
        {
            &&& #[trigger] announces(devices, true, said)
            &&& #[trigger] asks(devices, asked)
            &&& seen(actions) == (said + asked).push(
                SessionActionView::StartKeepalive { every_secs: crate::session::KEEPALIVE_SECS },
            )
        };
    assert(seen(actions).len() == actions.len());
    assert(seen(actions)[actions.len() - 1] == actions[actions.len() - 1]@);
    assert(seen(actions.subrange(0, said.len() as int)) =~= said) by {
        assert forall|i: int| 0 <= i < said.len() implies actions[i]@ == said[i] by {
            assert(seen(actions)[i] == actions[i]@);
        }
    }
    assert(seen(actions.subrange(said.len() as int, actions.len() - 1)) =~= asked) by {
        assert forall|i: int| 0 <= i < asked.len() implies actions[said.len() + i]@ == asked[i] by {
            assert(seen(actions)[said.len() + i] == actions[said.len() + i]@);
        }
    }
}

/// When a session does not come up or its link is lost, all devices are announced
/// as unavailable, and then the plugin rests as long as it is configured to. When no
/// more commands come, the keepalive is stopped before that.
pub proof fn law_a_session_ends_with_a_rest(
    devices: Map<u32, DeviceEntry>,
    rest_secs: u64,
    phase: Phase,
    event: SessionEvent,
    actions: Seq<SessionAction>,
)
    requires
        ({
            ||| phase is Connecting && event is ConnectFailed
            ||| phase is Live && event is LinkLost
            ||| phase is Live && event is CommandsClosed
        }),
        answers(devices, rest_secs, phase, event, seen(actions)),
    ensures
        ({
            let first: int = if event is CommandsClosed {
                1
            } else {
                0
            };
            &&& actions.len() > first
            &&& event is CommandsClosed ==> actions[0] is StopKeepalive
            &&& announces(devices, false, seen(actions.subrange(first, actions.len() - 1)))
            &&& actions[actions.len() - 1] == SessionAction::RestSecs(rest_secs)
        }),
{
    let first: int = if event is CommandsClosed {
        1
    } else {
        0
    };
    let told = seen(actions);
    assert(told.len() == actions.len());
    let down = told.skip(first);
    assert(first == 0 ==> down =~= told);
    assert(first == 1 ==> down =~= told.drop_first());
    let said = choose|said: Seq<SessionActionView>|
        {
            &&& #[trigger] announces(devices, false, said)
            &&& down == said.push(SessionActionView::RestSecs(rest_secs))
        };
    assert(down.len() == said.len() + 1);
    assert(told[actions.len() - 1] == actions[actions.len() - 1]@);
    assert(down[down.len() - 1] == told[actions.len() - 1]);
    if first == 1 {
        assert(told[0] == actions[0]@);
    }
    assert(seen(actions.subrange(first, actions.len() - 1)) =~= said) by {
        assert forall|i: int| 0 <= i < said.len() implies actions[first + i]@ == said[i] by {
            assert(told[first + i] == actions[first + i]@);
            assert(down[i] == told[first + i]);
        }
    }
}

/// After the rest the next connection is set up, and nothing else is done. Where an
/// event does not belong to the phase, nothing is done at all.
pub proof fn law_after_the_rest_the_next_session_is_set_up(
    devices: Map<u32, DeviceEntry>,
    rest_secs: u64,
    phase: Phase,
    event: SessionEvent,
    actions: Seq<SessionAction>,
)
    requires
        answers(devices, rest_secs, phase, event, seen(actions)),
    ensures
        phase is Resting && event is Rested ==> actions.len() == 1 && actions[0] is Connect,
        !({
            ||| phase is Connecting && event is Connected
            ||| phase is Connecting && event is ConnectFailed
            ||| phase is Live && event is LinkLost
            ||| phase is Live && event is CommandsClosed
            ||| phase is Resting && event is Rested
        }) ==> actions.len() == 0,
{
    assert(seen(actions).len() == actions.len());
    if phase is Resting && event is Rested {
        assert(seen(actions)[0] == actions[0]@);
    }
}

/// A session goes live exactly when it was being set up and the connection stands.
/// It rests from when it fails or ends until the rest is over, and then it is being
/// set up again.
pub proof fn law_phases_follow_each_other(phase: Phase, event: SessionEvent)
    ensures
        next_phase(phase, event) is Live <==> {
            ||| phase is Connecting && event is Connected
            ||| phase is Live && !(event is LinkLost || event is CommandsClosed)
        },
        next_phase(phase, event) is Resting <==> {
            ||| phase is Connecting && event is ConnectFailed
            ||| phase is Live && (event is LinkLost || event is CommandsClosed)
            ||| phase is Resting && !(event is Rested)
        },
        next_phase(phase, event) is Connecting <==> {
            ||| phase is Resting && event is Rested
            ||| phase is Connecting && !(event is Connected || event is ConnectFailed)
        },
{
}

} // verus!
