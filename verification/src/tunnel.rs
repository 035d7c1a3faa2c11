use vstd::prelude::*;

verus! {

/// The stations of one CONNECT request, from classification to relay
/// hand-off or rejection.
#[derive(Clone, Copy, PartialEq, Eq, Structural, Debug)]
pub enum TunnelState {
    /// The request has been classified as CONNECT.
    Received,
    /// Its authority has been parsed as a `host:port` target.
    TargetParsed,
    /// An outbound connection attempt to the target is in flight.
    UpstreamConnecting,
    /// The outbound connection stands; the client is to be notified.
    UpstreamConnected,
    /// The empty success answer has been delivered to the client.
    ClientNotified,
    /// The inbound connection is in raw-byte mode, handed to the relay.
    Upgraded,
    /// Terminal failure: an error answer is sent and no upgrade happens.
    Rejected,
}

/// What the surrounding driver reports back to the state machine.
#[derive(Clone, Copy, PartialEq, Eq, Structural, Debug)]
pub enum TunnelEvent {
    /// The authority parsed as a valid `host:port`.
    ParseOk,
    /// The authority was absent or malformed.
    ParseFailed,
    /// The outbound connection attempt has been started.
    ConnectAttempted,
    /// The outbound connection attempt succeeded.
    ConnectSucceeded,
    /// The outbound connection attempt failed.
    ConnectFailed,
    /// The success answer reached the client.
    SuccessDelivered,
    /// The inbound connection has been switched to raw bytes.
    UpgradeComplete,
}

/// What the driver must perform after a transition.
#[derive(Clone, Copy, PartialEq, Eq, Structural, Debug)]
pub enum TunnelAction {
    /// Nothing to perform; await the next event.
    Wait,
    /// Begin the outbound connection attempt to the parsed target.
    OpenUpstream,
    /// Deliver the empty success answer to the client.
    SendSuccess,
    /// Deliver an error answer to the client.
    SendError,
    /// Switch the inbound connection to raw-byte mode.
    Upgrade,
    /// Hand both ends to the byte relay as a background unit of work.
    StartRelay,
}

/// The transition table: from a state and an event to the next state and
/// the action the driver must perform, or nothing for a pair that a
/// well-behaved driver never produces. The success answer is emitted
/// only on a successful outbound connect, and the relay starts only
/// after the success answer has been delivered.
pub open spec fn step_spec(s: TunnelState, e: TunnelEvent) -> Option<(TunnelState, TunnelAction)> {
    match (s, e) {
        (TunnelState::Received, TunnelEvent::ParseOk) => Some(
            (TunnelState::TargetParsed, TunnelAction::OpenUpstream),
        ),
        (TunnelState::Received, TunnelEvent::ParseFailed) => Some(
            (TunnelState::Rejected, TunnelAction::SendError),
        ),
        (TunnelState::TargetParsed, TunnelEvent::ConnectAttempted) => Some(
            (TunnelState::UpstreamConnecting, TunnelAction::Wait),
        ),
        (TunnelState::UpstreamConnecting, TunnelEvent::ConnectSucceeded) => Some(
            (TunnelState::UpstreamConnected, TunnelAction::SendSuccess),
        ),
        (TunnelState::UpstreamConnecting, TunnelEvent::ConnectFailed) => Some(
            (TunnelState::Rejected, TunnelAction::SendError),
        ),
        (TunnelState::UpstreamConnected, TunnelEvent::SuccessDelivered) => Some(
            (TunnelState::ClientNotified, TunnelAction::Upgrade),
        ),
        (TunnelState::ClientNotified, TunnelEvent::UpgradeComplete) => Some(
            (TunnelState::Upgraded, TunnelAction::StartRelay),
        ),
        _ => None,
    }
}

/// One transition of the tunnel lifecycle, as the driver calls it.
pub fn tunnel_step(s: TunnelState, e: TunnelEvent) -> (r: Option<(TunnelState, TunnelAction)>)
    ensures
        r == step_spec(s, e),
{
    match (s, e) {
        (TunnelState::Received, TunnelEvent::ParseOk) => Some(
            (TunnelState::TargetParsed, TunnelAction::OpenUpstream),
        ),
        (TunnelState::Received, TunnelEvent::ParseFailed) => Some(
            (TunnelState::Rejected, TunnelAction::SendError),
        ),
        (TunnelState::TargetParsed, TunnelEvent::ConnectAttempted) => Some(
            (TunnelState::UpstreamConnecting, TunnelAction::Wait),
        ),
        (TunnelState::UpstreamConnecting, TunnelEvent::ConnectSucceeded) => Some(
            (TunnelState::UpstreamConnected, TunnelAction::SendSuccess),
        ),
        (TunnelState::UpstreamConnecting, TunnelEvent::ConnectFailed) => Some(
            (TunnelState::Rejected, TunnelAction::SendError),
        ),
        (TunnelState::UpstreamConnected, TunnelEvent::SuccessDelivered) => Some(
            (TunnelState::ClientNotified, TunnelAction::Upgrade),
        ),
        (TunnelState::ClientNotified, TunnelEvent::UpgradeComplete) => Some(
            (TunnelState::Upgraded, TunnelAction::StartRelay),
        ),
        _ => None,
    }
}

/// The state after a sequence of events, starting from `Received`;
/// nothing when some event was not accepted in its state.
pub open spec fn run_state(es: Seq<TunnelEvent>) -> Option<TunnelState>
    decreases es.len(),
{
    if es.len() == 0 {
        Some(TunnelState::Received)
    } else {
        match run_state(es.drop_last()) {
            Some(s) => match step_spec(s, es.last()) {
                Some(sa) => Some(sa.0),
                None => None,
            },
            None => None,
        }
    }
}

/// The events are a well-formed drive of one CONNECT request: every
/// event was accepted in the state it arrived in.
pub open spec fn valid_trace(es: Seq<TunnelEvent>) -> bool {
    run_state(es) is Some
}

/// How often the drive emitted action `a`.
pub open spec fn action_count(es: Seq<TunnelEvent>, a: TunnelAction) -> int
    decreases es.len(),
{
    if es.len() == 0 {
        0
    } else {
        action_count(es.drop_last(), a) + (match run_state(es.drop_last()) {
            Some(s) => match step_spec(s, es.last()) {
                Some(sa) => if sa.1 == a {
                    1int
                } else {
                    0int
                },
                None => 0int,
            },
            None => 0int,
        })
    }
}

/// Every prefix of a well-formed drive is itself well formed.
pub proof fn lemma_prefix_valid(es: Seq<TunnelEvent>, n: int)
    requires
        valid_trace(es),
        0 <= n <= es.len(),
    ensures
        valid_trace(es.take(n)),
    decreases es.len(),
{
    if n < es.len() {
        assert(valid_trace(es.drop_last()));
        lemma_prefix_valid(es.drop_last(), n);
        assert(es.drop_last().take(n) =~= es.take(n));
    } else {
        assert(es.take(n) =~= es);
    }
}

/// The counting invariant of a drive: the success answer has been
/// emitted exactly on the far side of `UpstreamConnected`, an error
/// answer exactly in `Rejected`, the relay started exactly in
/// `Upgraded`, and the connected states are reached only after the
/// outbound connect in fact succeeded.
pub proof fn lemma_trace_invariant(es: Seq<TunnelEvent>)
    requires
        valid_trace(es),
    ensures
        ({
            let s = run_state(es)->0;
            &&& action_count(es, TunnelAction::SendSuccess) == (
                if s is UpstreamConnected || s is ClientNotified || s is Upgraded {
                    1int
                } else {
                    0int
                }
            )
            &&& action_count(es, TunnelAction::SendError) == (
                if s is Rejected {
                    1int
                } else {
                    0int
                }
            )
            &&& action_count(es, TunnelAction::StartRelay) == (
                if s is Upgraded {
                    1int
                } else {
                    0int
                }
            )
            &&& (s is UpstreamConnected || s is ClientNotified || s is Upgraded) ==> es.contains(
                TunnelEvent::ConnectSucceeded,
            )
        }),
    decreases es.len(),
{
    if es.len() > 0 {
        let prev = es.drop_last();
        assert(valid_trace(prev));
        lemma_trace_invariant(prev);
        let s0 = run_state(prev)->0;
        if (s0 is UpstreamConnected || s0 is ClientNotified || s0 is Upgraded)
            && prev.contains(TunnelEvent::ConnectSucceeded) {
            let i = choose|i: int|
                0 <= i < prev.len() && prev[i] == TunnelEvent::ConnectSucceeded;
            assert(es[i] == TunnelEvent::ConnectSucceeded);
        }
        if es.last() == TunnelEvent::ConnectSucceeded {
            assert(es[es.len() - 1] == TunnelEvent::ConnectSucceeded);
        }
    }
}

/// At most one success answer is ever sent; the relay starts only after
/// the one success answer; and a success answer is sent only after the
/// outbound connection to the target has in fact succeeded. Together
/// with `lemma_prefix_valid` this holds at every moment of the drive,
/// so the client observes the success status strictly before any
/// relayed byte.
pub proof fn lemma_success_before_relay(es: Seq<TunnelEvent>)
    requires
        valid_trace(es),
    ensures
        action_count(es, TunnelAction::SendSuccess) <= 1,
        action_count(es, TunnelAction::StartRelay) <= action_count(
            es,
            TunnelAction::SendSuccess,
        ),
        action_count(es, TunnelAction::SendSuccess) == 1 ==> es.contains(
            TunnelEvent::ConnectSucceeded,
        ),
{
    lemma_trace_invariant(es);
}

/// A rejected request never upgrades: no relay has started, no success
/// answer was sent, and nothing moves out of `Rejected`.
pub proof fn lemma_rejected_never_relays(es: Seq<TunnelEvent>)
    requires
        valid_trace(es),
        run_state(es) == Some(TunnelState::Rejected),
    ensures
        action_count(es, TunnelAction::StartRelay) == 0,
        action_count(es, TunnelAction::SendSuccess) == 0,
        forall|e: TunnelEvent| step_spec(TunnelState::Rejected, e) is None,
{
    lemma_trace_invariant(es);
}

/// Exactly one answer is produced for one CONNECT request: a completed
/// drive, ending upgraded or rejected, has sent one success or one error
/// answer, never zero and never two.
pub proof fn lemma_exactly_one_response(es: Seq<TunnelEvent>)
    requires
        valid_trace(es),
        run_state(es)->0 is Upgraded || run_state(es)->0 is Rejected,
    ensures
        action_count(es, TunnelAction::SendSuccess) + action_count(es, TunnelAction::SendError)
            == 1,
{
    lemma_trace_invariant(es);
}

} // verus!
