use vstd::prelude::*;

verus! {

/// Seconds the station waits after a failed or lost connection before it
/// tries again, so that it does not storm the access point.
pub const RECONNECT_DELAY_SECS: u64 = 3;

/// Where the Wi-Fi station task stands.
#[derive(Clone, Copy, Debug, PartialEq, Eq, Structural)]
pub enum LinkState {
    /// The radio is being started.
    Starting,
    /// A connection attempt is under way.
    Connecting,
    /// Connected; waiting for the link to drop.
    Online,
    /// Waiting out the delay before the next attempt.
    Backoff,
}

/// What the radio or the timer reported to the station task.
#[derive(Clone, Copy, Debug, PartialEq, Eq, Structural)]
pub enum LinkEvent {
    /// The radio has started.
    Started,
    /// The connection attempt succeeded.
    Connected,
    /// The connection attempt failed.
    ConnectFailed,
    /// The station lost its connection.
    Disconnected,
    /// The reconnect delay has passed.
    BackoffElapsed,
}

/// What the station task must do next.
#[derive(Clone, Copy, Debug, PartialEq, Eq, Structural)]
pub enum LinkAction {
    /// Start the radio.
    StartRadio,
    /// Try to connect to the access point.
    Connect,
    /// Wait until the station is disconnected.
    WaitForDisconnect,
    /// Sleep this many seconds.
    Sleep { seconds: u64 },
    /// Nothing: the event does not concern the current state.
    Nothing,
}

/// The transition table of the station task.
pub open spec fn next_link(state: LinkState, event: LinkEvent) -> (LinkState, LinkAction) {
    match (state, event) {
        (LinkState::Starting, LinkEvent::Started) => (LinkState::Connecting, LinkAction::Connect),
        (LinkState::Connecting, LinkEvent::Connected) => (
            LinkState::Online,
            LinkAction::WaitForDisconnect,
        ),
        (LinkState::Connecting, LinkEvent::ConnectFailed) => (
            LinkState::Backoff,
            LinkAction::Sleep { seconds: RECONNECT_DELAY_SECS },
        ),
        (LinkState::Online, LinkEvent::Disconnected) => (
            LinkState::Backoff,
            LinkAction::Sleep { seconds: RECONNECT_DELAY_SECS },
        ),
        (LinkState::Backoff, LinkEvent::BackoffElapsed) => (
            LinkState::Connecting,
            LinkAction::Connect,
        ),
        _ => (state, LinkAction::Nothing),
    }
}

/// The state the station task begins in, and its first action.
pub fn start_link() -> (r: (LinkState, LinkAction))
    ensures
        r == (LinkState::Starting, LinkAction::StartRadio),
{
    (LinkState::Starting, LinkAction::StartRadio)
}

/// The next state of the station task and its next action, once `event`
/// has been reported in `state`.
pub fn link_step(state: LinkState, event: LinkEvent) -> (r: (LinkState, LinkAction))
    ensures
        r == next_link(state, event),
{
    match (state, event) {
        (LinkState::Starting, LinkEvent::Started) => (LinkState::Connecting, LinkAction::Connect),
        (LinkState::Connecting, LinkEvent::Connected) => (
            LinkState::Online,
            LinkAction::WaitForDisconnect,
        ),
        (LinkState::Connecting, LinkEvent::ConnectFailed) => (
            LinkState::Backoff,
            LinkAction::Sleep { seconds: RECONNECT_DELAY_SECS },
        ),
        (LinkState::Online, LinkEvent::Disconnected) => (
            LinkState::Backoff,
            LinkAction::Sleep { seconds: RECONNECT_DELAY_SECS },
        ),
        (LinkState::Backoff, LinkEvent::BackoffElapsed) => (
            LinkState::Connecting,
            LinkAction::Connect,
        ),
        _ => (state, LinkAction::Nothing),
    }
}

/// The state reached and the actions taken, first action included, when the
/// events `events` are reported to a freshly started station task.
pub open spec fn link_run(events: Seq<LinkEvent>) -> (LinkState, Seq<LinkAction>)
    decreases events.len(),
{
    if events.len() == 0 {
        (LinkState::Starting, seq![LinkAction::StartRadio])
    } else {
        let (state, actions) = link_run(events.drop_last());
        let (next, action) = next_link(state, events.last());
        (next, actions.push(action))
    }
}

/// Between any two connection attempts in `actions` the task sleeps for the
/// reconnect delay.
pub open spec fn attempts_paced(actions: Seq<LinkAction>) -> bool {
    forall|i: int, j: int|
        #![trigger actions[i], actions[j]]
        0 <= i < j < actions.len() && actions[i] == LinkAction::Connect && actions[j]
            == LinkAction::Connect ==> exists|k: int|
            i < k < j && #[trigger] actions[k] == (LinkAction::Sleep {
                seconds: RECONNECT_DELAY_SECS,
            })
}

/// Every connection attempt in `actions` is followed, later in `actions`, by
/// a sleep of the reconnect delay.
pub open spec fn attempts_closed(actions: Seq<LinkAction>) -> bool {
    forall|i: int|
        #![trigger actions[i]]
        0 <= i < actions.len() && actions[i] == LinkAction::Connect ==> exists|k: int|
            i < k < actions.len() && #[trigger] actions[k] == (LinkAction::Sleep {
                seconds: RECONNECT_DELAY_SECS,
            })
}

proof fn lemma_link_run_invariant(events: Seq<LinkEvent>)
    ensures
        attempts_paced(link_run(events).1),
        link_run(events).0 == LinkState::Starting ==> !link_run(events).1.contains(
            LinkAction::Connect,
        ),
        link_run(events).0 == LinkState::Backoff ==> attempts_closed(link_run(events).1),
        link_run(events).1.len() == events.len() + 1,
        link_run(events).1[0] == LinkAction::StartRadio,
    decreases events.len(),
{
    if events.len() > 0 {
        let rest = events.drop_last();
        lemma_link_run_invariant(rest);
        let (state, actions) = link_run(rest);
        let (next, action) = next_link(state, events.last());
        let all = actions.push(action);
        assert(link_run(events) == (next, all));
        assert forall|i: int, j: int|
            #![trigger all[i], all[j]]
            0 <= i < j < all.len() && all[i] == LinkAction::Connect && all[j]
                == LinkAction::Connect implies exists|k: int|
            i < k < j && #[trigger] all[k] == (LinkAction::Sleep {
                seconds: RECONNECT_DELAY_SECS,
            }) by {
            if j < actions.len() {
                assert(actions[i] == all[i] && actions[j] == all[j]);
                let k: int = choose|k: int|
                    i < k < j && #[trigger] actions[k] == (LinkAction::Sleep {
                        seconds: RECONNECT_DELAY_SECS,
                    });
                assert(all[k] == actions[k]);
            } else {
                assert(actions[i] == all[i]);
                if state == LinkState::Starting {
                    assert(actions.contains(LinkAction::Connect));
                } else {
                    assert(state == LinkState::Backoff);
                    let k: int = choose|k: int|
                        i < k < actions.len() && #[trigger] actions[k] == (LinkAction::Sleep {
                            seconds: RECONNECT_DELAY_SECS,
                        });
                    assert(all[k] == actions[k]);
                }
            }
        }
        if next == LinkState::Starting {
            if all.contains(LinkAction::Connect) {
                let i: int = choose|i: int| 0 <= i < all.len() && all[i] == LinkAction::Connect;
                assert(actions[i] == all[i]);
            }
        }
        if next == LinkState::Backoff {
            assert forall|i: int|
                #![trigger all[i]]
                0 <= i < all.len() && all[i] == LinkAction::Connect implies exists|k: int|
                i < k < all.len() && #[trigger] all[k] == (LinkAction::Sleep {
                    seconds: RECONNECT_DELAY_SECS,
                }) by {
                if state == LinkState::Backoff {
                    assert(actions[i] == all[i]);
                    let k: int = choose|k: int|
                        i < k < actions.len() && #[trigger] actions[k] == (LinkAction::Sleep {
                            seconds: RECONNECT_DELAY_SECS,
                        });
                    assert(all[k] == actions[k]);
                } else {
                    assert(all[all.len() - 1] == action);
                }
            }
        }
    }
}

/// Whatever the radio reports, the station task never tries to connect
/// twice without sleeping for the reconnect delay in between, and it starts
/// the radio once, as its first action only.
pub proof fn lemma_no_reconnect_storm(events: Seq<LinkEvent>)
    ensures
        attempts_paced(link_run(events).1),
        link_run(events).1[0] == LinkAction::StartRadio,
        forall|i: int|
            0 < i < link_run(events).1.len() ==> #[trigger] link_run(events).1[i]
                != LinkAction::StartRadio,
    decreases events.len(),
{
    lemma_link_run_invariant(events);
    if events.len() > 0 {
        lemma_no_reconnect_storm(events.drop_last());
    }
}

} // verus!
