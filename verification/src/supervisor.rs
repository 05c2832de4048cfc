//! The life of one route within one generation: it starts, serves, drains
//! and terminates, and never goes back.

use vstd::prelude::*;

verus! {

/// Where the supervisor of one route stands.
#[derive(Clone, Copy, Debug, PartialEq, Eq, Structural)]
pub enum SupervisorState {
    /// Binding the listener and connecting to the upstream.
    Starting,
    /// Accepting connections and forwarding their requests.
    Serving,
    /// Accepting nothing new, finishing what is in flight.
    Draining,
    /// Listener closed, everything released.
    Terminated,
}

/// What happened to a supervisor.
#[derive(Clone, Copy, Debug, PartialEq, Eq, Structural)]
pub enum SupervisorEvent {
    /// The listener is bound and the upstream link stands.
    Ready,
    /// The listener could not be bound, or the upstream not reached.
    StartFailed,
    /// The supervisor looked at its generation's shutdown signal and found
    /// it fired.
    Shutdown,
    /// The requests that were in flight are answered.
    Drained,
}

/// What a supervisor is asked to do next.
#[derive(Clone, Copy, Debug, PartialEq, Eq, Structural)]
pub enum SupervisorAction {
    /// Accept connections.
    Serve,
    /// Stop accepting, and let the requests in flight finish.
    StopAccepting,
    /// Close the listener, release everything, report the termination.
    Finish,
    /// As `Finish`, and report that the route never came up.
    Fail,
    /// Carry on.
    Nothing,
}

impl SupervisorState {
    /// The route takes new connections.
    pub open spec fn accepting(self) -> bool {
        self is Serving
    }

    /// The route's listener holds its address.
    pub open spec fn listening(self) -> bool {
        self is Serving || self is Draining
    }

    /// Position in the life of a supervisor.
    pub open spec fn rank(self) -> nat {
        match self {
            SupervisorState::Starting => 0,
            SupervisorState::Serving => 1,
            SupervisorState::Draining => 2,
            SupervisorState::Terminated => 3,
        }
    }

    /// Tells whether the route is terminated.
    pub fn is_terminated(self) -> (terminated: bool)
        ensures
            terminated == (self is Terminated),
    {
        match self {
            SupervisorState::Terminated => true,
            _ => false,
        }
    }
}

/// The supervisor's rule. `fired` tells whether the generation's shutdown
/// signal has fired by the time of the event: a route that becomes ready
/// under a fired signal terminates at once and never serves. A startup
/// failure ends the route and leaves the other routes alone. `None` stands
/// for an event that the state does not await.
pub open spec fn supervisor_next(state: SupervisorState, event: SupervisorEvent, fired: bool)
    -> Option<(SupervisorState, SupervisorAction)> {
    match (state, event) {
        (SupervisorState::Starting, SupervisorEvent::Ready) => if fired {
            Some((SupervisorState::Terminated, SupervisorAction::Finish))
        } else {
            Some((SupervisorState::Serving, SupervisorAction::Serve))
        },
        (SupervisorState::Starting, SupervisorEvent::StartFailed) => Some(
            (SupervisorState::Terminated, SupervisorAction::Fail),
        ),
        (SupervisorState::Starting, SupervisorEvent::Shutdown) => Some(
            (SupervisorState::Terminated, SupervisorAction::Finish),
        ),
        (SupervisorState::Serving, SupervisorEvent::Shutdown) => Some(
            (SupervisorState::Draining, SupervisorAction::StopAccepting),
        ),
        (SupervisorState::Draining, SupervisorEvent::Shutdown) => Some(
            (SupervisorState::Draining, SupervisorAction::Nothing),
        ),
        (SupervisorState::Draining, SupervisorEvent::Drained) => Some(
            (SupervisorState::Terminated, SupervisorAction::Finish),
        ),
        (SupervisorState::Terminated, SupervisorEvent::Shutdown) => Some(
            (SupervisorState::Terminated, SupervisorAction::Nothing),
        ),
        _ => None,
    }
}

/// Advances a supervisor by one event.
pub fn supervisor_step(state: SupervisorState, event: SupervisorEvent, fired: bool) -> (next:
    Option<(SupervisorState, SupervisorAction)>)
    ensures
        next == supervisor_next(state, event, fired),
{
    match state {
        SupervisorState::Starting => match event {
            SupervisorEvent::Ready => {
                if fired {
                    Some((SupervisorState::Terminated, SupervisorAction::Finish))
                } else {
                    Some((SupervisorState::Serving, SupervisorAction::Serve))
                }
            },
            SupervisorEvent::StartFailed => Some(
                (SupervisorState::Terminated, SupervisorAction::Fail),
            ),
            SupervisorEvent::Shutdown => Some(
                (SupervisorState::Terminated, SupervisorAction::Finish),
            ),
            SupervisorEvent::Drained => None,
        },
        SupervisorState::Serving => match event {
            SupervisorEvent::Shutdown => Some(
                (SupervisorState::Draining, SupervisorAction::StopAccepting),
            ),
            _ => None,
        },
        SupervisorState::Draining => match event {
            SupervisorEvent::Shutdown => Some(
                (SupervisorState::Draining, SupervisorAction::Nothing),
            ),
            SupervisorEvent::Drained => Some(
                (SupervisorState::Terminated, SupervisorAction::Finish),
            ),
            _ => None,
        },
        SupervisorState::Terminated => match event {
            SupervisorEvent::Shutdown => Some(
                (SupervisorState::Terminated, SupervisorAction::Nothing),
            ),
            _ => None,
        },
    }
}

/// The state that `events`, arriving in this order under the signal levels
/// `fired`, lead to from `state`. An event that is not awaited changes
/// nothing.
pub open spec fn supervisor_after(
    state: SupervisorState,
    events: Seq<SupervisorEvent>,
    fired: Seq<bool>,
) -> SupervisorState
    recommends
        events.len() == fired.len(),
    decreases events.len(),
{
    if events.len() == 0 {
        state
    } else {
        let next = match supervisor_next(state, events[0], fired[0]) {
            None => state,
            Some((next, _)) => next,
        };
        supervisor_after(next, events.drop_first(), fired.drop_first())
    }
}

/// A supervisor only moves forward: from starting over serving and
/// draining to terminated. In particular a terminated one stays so.
pub proof fn lemma_supervisor_moves_forward(
    state: SupervisorState,
    event: SupervisorEvent,
    fired: bool,
)
    ensures
        supervisor_next(state, event, fired) matches Some((next, _)) ==> state.rank()
            <= next.rank(),
{
}

/// Requests in flight are never cut off: a listening route closes its
/// listener only out of draining, and only when it has drained.
pub proof fn lemma_in_flight_requests_finish(
    state: SupervisorState,
    event: SupervisorEvent,
    fired: bool,
)
    requires
        state.listening(),
        supervisor_next(state, event, fired) matches Some((next, _)) && next is Terminated,
    ensures
        state is Draining,
        event is Drained,
{
}

/// The shutdown signal is level-triggered: once a supervisor has seen it
/// fired, it never accepts a connection again, whatever arrives later.
pub proof fn lemma_shutdown_is_final(
    state: SupervisorState,
    level: bool,
    events: Seq<SupervisorEvent>,
    fired: Seq<bool>,
)
    requires
        events.len() == fired.len(),
        supervisor_next(state, SupervisorEvent::Shutdown, level) is Some,
    ensures
        !supervisor_after(
            supervisor_next(state, SupervisorEvent::Shutdown, level).unwrap().0,
            events,
            fired,
        ).accepting(),
{
    let seen = supervisor_next(state, SupervisorEvent::Shutdown, level).unwrap().0;
    lemma_rank_never_falls(seen, events, fired);
}

/// Over any sequence of events the rank of a supervisor does not fall.
pub proof fn lemma_rank_never_falls(
    state: SupervisorState,
    events: Seq<SupervisorEvent>,
    fired: Seq<bool>,
)
    requires
        events.len() == fired.len(),
    ensures
        state.rank() <= supervisor_after(state, events, fired).rank(),
    decreases events.len(),
{
    if events.len() > 0 {
        let next = match supervisor_next(state, events[0], fired[0]) {
            None => state,
            Some((next, _)) => next,
        };
        lemma_rank_never_falls(next, events.drop_first(), fired.drop_first());
    }
}

/// Under a fired signal nothing opens: whatever happens to a supervisor
/// that is not accepting, it is not accepting afterwards. In particular a
/// route that becomes ready only then terminates without ever serving.
pub proof fn lemma_fired_signal_opens_nothing(state: SupervisorState, event: SupervisorEvent)
    requires
        !state.accepting(),
    ensures
        supervisor_next(state, event, true) matches Some((next, _)) ==> !next.accepting(),
{
}

} // verus!
