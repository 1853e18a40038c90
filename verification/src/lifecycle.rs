//! The life of a client: the states of its connection, and shutting down.

use vstd::prelude::*;

verus! {

/// The state of the connection to the cluster.
#[derive(Clone, Copy, Debug, PartialEq, Eq, Structural)]
pub enum ConnectionStatus {
    Disconnected,
    Connecting,
    Connected,
    Reconnecting,
    /// The client gave up or was shut down. Nothing leads out of this
    /// state.
    Closed,
}

/// What happened to the connection.
#[derive(Clone, Copy, Debug, PartialEq, Eq, Structural)]
pub enum ConnectionEvent {
    /// The first connection is being opened.
    Dialing,
    /// A handshake succeeded.
    Established,
    /// The stream ended or failed.
    Lost,
    /// Every allowed attempt to connect failed, or the client shut down.
    GaveUp,
}

/// The state after `event` happened in the state `status`. `Closed` is
/// final; from every other state a lost stream leads to reconnecting, a
/// successful handshake to connected, and giving up to closed.
pub open spec fn status_after(
    status: ConnectionStatus,
    event: ConnectionEvent,
) -> ConnectionStatus {
    if status == ConnectionStatus::Closed {
        ConnectionStatus::Closed
    } else {
        match event {
            ConnectionEvent::Dialing => ConnectionStatus::Connecting,
            ConnectionEvent::Established => ConnectionStatus::Connected,
            ConnectionEvent::Lost => ConnectionStatus::Reconnecting,
            ConnectionEvent::GaveUp => ConnectionStatus::Closed,
        }
    }
}

impl ConnectionStatus {
    /// The state after `event`.
    pub fn after(self, event: ConnectionEvent) -> (next: ConnectionStatus)
        ensures
            next == status_after(self, event),
    {
        match self {
            ConnectionStatus::Closed => ConnectionStatus::Closed,
            _ => match event {
                ConnectionEvent::Dialing => ConnectionStatus::Connecting,
                ConnectionEvent::Established => ConnectionStatus::Connected,
                ConnectionEvent::Lost => ConnectionStatus::Reconnecting,
                ConnectionEvent::GaveUp => ConnectionStatus::Closed,
            },
        }
    }
}

/// Whatever happens after the connection is closed, it stays closed.
pub proof fn lemma_closed_is_final(events: Seq<ConnectionEvent>)
    ensures
        status_after_all(ConnectionStatus::Closed, events) == ConnectionStatus::Closed,
    decreases events.len(),
{
    if events.len() > 0 {
        lemma_closed_is_final(events.drop_first());
    }
}

/// The state after each of `events` happened in turn.
pub open spec fn status_after_all(
    status: ConnectionStatus,
    events: Seq<ConnectionEvent>,
) -> ConnectionStatus
    decreases events.len(),
{
    if events.len() == 0 {
        status
    } else {
        status_after_all(status_after(status, events[0]), events.drop_first())
    }
}

/// What a call of `shut_down` has to do.
#[derive(Clone, Copy, Debug, PartialEq, Eq, Structural)]
pub enum ShutdownAction {
    /// This call is the first: signal the outbound worker, wake both
    /// workers and join them.
    StopWorkers,
    /// The client is shutting down already: nothing is left to do.
    Nothing,
}

/// What the call of `shut_down` that finds the flag at `was_shutting_down`
/// has to do.
pub open spec fn shutdown_duty(was_shutting_down: bool) -> ShutdownAction {
    if was_shutting_down {
        ShutdownAction::Nothing
    } else {
        ShutdownAction::StopWorkers
    }
}

/// What `k` calls of `shut_down` in a row have to do, the first of which
/// finds the flag at `flag`. Every call leaves the flag set.
pub open spec fn shutdown_duties(flag: bool, k: nat) -> Seq<ShutdownAction>
    decreases k,
{
    if k == 0 {
        Seq::empty()
    } else {
        seq![shutdown_duty(flag)] + shutdown_duties(true, (k - 1) as nat)
    }
}

/// Number of calls among `duties` that have to stop the workers.
pub open spec fn stops(duties: Seq<ShutdownAction>) -> nat
    decreases duties.len(),
{
    if duties.len() == 0 {
        0
    } else if duties[0] == ShutdownAction::StopWorkers {
        1 + stops(duties.drop_first())
    } else {
        stops(duties.drop_first())
    }
}

/// Calls that find the flag set have nothing to do.
pub proof fn lemma_shutdown_repeated(k: nat)
    ensures
        shutdown_duties(true, k).len() == k,
        forall|i: int|
            0 <= i < k ==> #[trigger] shutdown_duties(true, k)[i] == ShutdownAction::Nothing,
        stops(shutdown_duties(true, k)) == 0,
    decreases k,
{
    if k > 0 {
        lemma_shutdown_repeated((k - 1) as nat);
        let d = shutdown_duties(true, k);
        assert(d.drop_first() =~= shutdown_duties(true, (k - 1) as nat));
        assert forall|i: int| 0 <= i < k implies #[trigger] d[i] == ShutdownAction::Nothing by {
            if i > 0 {
                assert(d[i] == shutdown_duties(true, (k - 1) as nat)[i - 1]);
            }
        }
    }
}

/// However often `shut_down` is called on a running client, the first call
/// stops the workers and no other call does anything: the workers are
/// joined exactly once.
pub proof fn lemma_shutdown_stops_once(k: nat)
    requires
        k >= 1,
    ensures
        shutdown_duties(false, k).len() == k,
        shutdown_duties(false, k)[0] == ShutdownAction::StopWorkers,
        forall|i: int|
            1 <= i < k ==> #[trigger] shutdown_duties(false, k)[i] == ShutdownAction::Nothing,
        stops(shutdown_duties(false, k)) == 1,
{
    lemma_shutdown_repeated((k - 1) as nat);
    let d = shutdown_duties(false, k);
    assert(d.drop_first() =~= shutdown_duties(true, (k - 1) as nat));
    assert forall|i: int| 1 <= i < k implies #[trigger] d[i] == ShutdownAction::Nothing by {
        assert(d[i] == shutdown_duties(true, (k - 1) as nat)[i - 1]);
    }
}

/// What the call of `shut_down` has to do that swapped `true` into the
/// shutdown flag and found `was_shutting_down` there.
pub fn shutdown_action(was_shutting_down: bool) -> (action: ShutdownAction)
    ensures
        action == shutdown_duty(was_shutting_down),
{
    if was_shutting_down {
        ShutdownAction::Nothing
    } else {
        ShutdownAction::StopWorkers
    }
}

} // verus!
