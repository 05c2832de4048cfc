//! Reconnection policy of an upstream link: exponentially growing delays and
//! a bounded number of connection attempts.

use vstd::arithmetic::power2::{lemma2_to64, lemma2_to64_rest, lemma_pow2_strictly_increases, lemma_pow2_unfold, pow2};
use vstd::prelude::*;

verus! {

/// Milliseconds waited before the first reconnection attempt.
pub const INITIAL_DELAY_MS: u64 = 100;

/// The last attempt whose delay still fits in 64 bits of milliseconds.
pub const LAST_EXACT_ATTEMPT: usize = 58;

/// Delay in milliseconds that precedes attempt `attempt` (counted from one):
/// the initial delay, doubled once for every earlier attempt.
pub open spec fn delay_ms(attempt: nat) -> nat {
    if attempt == 0 {
        0
    } else {
        100 * pow2((attempt - 1) as nat)
    }
}

/// `delay_ms`, held at the largest representable number of milliseconds.
pub open spec fn saturated_delay_ms(attempt: nat) -> nat {
    if delay_ms(attempt) <= u64::MAX {
        delay_ms(attempt)
    } else {
        u64::MAX as nat
    }
}

/// Each attempt waits twice as long as the one before it.
pub proof fn lemma_delay_doubles(attempt: nat)
    requires
        attempt >= 1,
    ensures
        delay_ms(attempt + 1) == 2 * delay_ms(attempt),
{
    lemma_pow2_unfold(attempt);
}

/// Later attempts never wait less than earlier ones.
pub proof fn lemma_delay_monotonic(earlier: nat, later: nat)
    requires
        1 <= earlier <= later,
    ensures
        delay_ms(earlier) <= delay_ms(later),
{
    if earlier < later {
        lemma_pow2_strictly_increases((earlier - 1) as nat, (later - 1) as nat);
        assert(100 * pow2((earlier - 1) as nat) <= 100 * pow2((later - 1) as nat)) by (nonlinear_arith)
            requires
                pow2((earlier - 1) as nat) < pow2((later - 1) as nat),
        ;
    }
}

/// Up to `LAST_EXACT_ATTEMPT` the delay is exactly `100 * 2^(attempt - 1)`
/// milliseconds; from the next attempt on it no longer fits and saturates.
pub proof fn lemma_delay_exact(attempt: nat)
    requires
        attempt >= 1,
    ensures
        attempt <= LAST_EXACT_ATTEMPT ==> saturated_delay_ms(attempt) == 100 * pow2(
            (attempt - 1) as nat,
        ),
        attempt > LAST_EXACT_ATTEMPT ==> saturated_delay_ms(attempt) == u64::MAX,
{
    lemma2_to64();
    lemma2_to64_rest();
    assert(delay_ms(58) == 100 * pow2(57));
    assert(delay_ms(59) == 100 * pow2(58));
    if attempt <= LAST_EXACT_ATTEMPT {
        lemma_delay_monotonic(attempt, 58);
    } else {
        lemma_delay_monotonic(59, attempt);
    }
}

/// The delay to observe before attempt `attempt`, in milliseconds.
pub fn delay_before(attempt: usize) -> (delay: u64)
    requires
        attempt >= 1,
    ensures
        delay as nat == saturated_delay_ms(attempt as nat),
{
    let mut delay: u64 = INITIAL_DELAY_MS;
    let mut reached: usize = 1;
    proof {
        lemma2_to64();
    }
    while reached < attempt && delay <= u64::MAX / 2
        invariant
            1 <= reached <= attempt,
            delay as nat == delay_ms(reached as nat),
        decreases attempt - reached,
    {
        proof {
            lemma_delay_doubles(reached as nat);
        }
        delay = delay * 2;
        reached = reached + 1;
    }
    if reached < attempt {
        proof {
            lemma_delay_doubles(reached as nat);
            lemma_delay_monotonic((reached + 1) as nat, attempt as nat);
        }
        u64::MAX
    } else {
        delay
    }
}

/// Where the re-establishing of a link stands.
#[derive(Clone, Copy, Debug, PartialEq, Eq, Structural)]
pub enum ReconnectState {
    /// The delay before attempt `attempt` is running.
    Waiting { attempt: usize },
    /// Attempt `attempt` is under way.
    Connecting { attempt: usize },
    /// An attempt succeeded: the link holds the new connection.
    Connected,
    /// Every attempt failed: the link is as it was.
    Exhausted,
}

/// What the surroundings report back.
#[derive(Clone, Copy, Debug, PartialEq, Eq, Structural)]
pub enum ReconnectEvent {
    /// The delay that was asked for has passed.
    DelayElapsed,
    /// The connection stands and its handshake is done.
    Established,
    /// Connecting, or the handshake, failed.
    Failed,
}

/// What the surroundings are asked to do next.
#[derive(Clone, Copy, Debug, PartialEq, Eq, Structural)]
pub enum ReconnectAction {
    /// Let `delay_ms` milliseconds pass before attempt `attempt`.
    Wait { attempt: usize, delay_ms: u64 },
    /// Make attempt `attempt` to connect.
    Connect { attempt: usize },
    /// Put the new connection and its driver in place of the old ones.
    Replace,
    /// Report that the attempts are used up, and leave the link alone.
    GiveUp,
}

impl ReconnectState {
    /// The attempt that is waited for or under way lies within the budget.
    pub open spec fn wf(self, max_attempts: usize) -> bool {
        match self {
            ReconnectState::Waiting { attempt } => 1 <= attempt <= max_attempts,
            ReconnectState::Connecting { attempt } => 1 <= attempt <= max_attempts,
            ReconnectState::Connected => true,
            ReconnectState::Exhausted => true,
        }
    }
}

/// The wait that precedes attempt `attempt`.
pub open spec fn wait_for(attempt: usize) -> ReconnectAction {
    ReconnectAction::Wait { attempt, delay_ms: saturated_delay_ms(attempt as nat) as u64 }
}

/// How a reconnection with a budget of `max_attempts` begins: with the wait
/// before the first attempt, or, without a budget, with giving up.
pub open spec fn reconnect_first(max_attempts: usize) -> (ReconnectState, ReconnectAction) {
    if max_attempts == 0 {
        (ReconnectState::Exhausted, ReconnectAction::GiveUp)
    } else {
        (ReconnectState::Waiting { attempt: 1 }, wait_for(1))
    }
}

/// The reconnection rule: the next state and the action for each event that
/// the state awaits, and `None` for an event it does not await.
pub open spec fn reconnect_next(
    max_attempts: usize,
    state: ReconnectState,
    event: ReconnectEvent,
) -> Option<(ReconnectState, ReconnectAction)> {
    match (state, event) {
        (ReconnectState::Waiting { attempt }, ReconnectEvent::DelayElapsed) => Some(
            (ReconnectState::Connecting { attempt }, ReconnectAction::Connect { attempt }),
        ),
        (ReconnectState::Connecting { attempt }, ReconnectEvent::Established) => Some(
            (ReconnectState::Connected, ReconnectAction::Replace),
        ),
        (ReconnectState::Connecting { attempt }, ReconnectEvent::Failed) => if attempt
            < max_attempts {
            Some(
                (
                    ReconnectState::Waiting { attempt: (attempt + 1) as usize },
                    wait_for((attempt + 1) as usize),
                ),
            )
        } else {
            Some((ReconnectState::Exhausted, ReconnectAction::GiveUp))
        },
        _ => None,
    }
}

/// Begins a reconnection that may make `max_attempts` attempts.
pub fn reconnect_begin(max_attempts: usize) -> (first: (ReconnectState, ReconnectAction))
    ensures
        first == reconnect_first(max_attempts),
        first.0.wf(max_attempts),
{
    if max_attempts == 0 {
        (ReconnectState::Exhausted, ReconnectAction::GiveUp)
    } else {
        let delay_ms: u64 = delay_before(1);
        (ReconnectState::Waiting { attempt: 1 }, ReconnectAction::Wait { attempt: 1, delay_ms })
    }
}

/// Advances a reconnection by one event.
pub fn reconnect_step(max_attempts: usize, state: ReconnectState, event: ReconnectEvent) -> (next:
    Option<(ReconnectState, ReconnectAction)>)
    ensures
        next == reconnect_next(max_attempts, state, event),
        state.wf(max_attempts) ==> (next matches Some(after) ==> after.0.wf(max_attempts)),
{
    match state {
        ReconnectState::Waiting { attempt } => match event {
            ReconnectEvent::DelayElapsed => Some(
                (ReconnectState::Connecting { attempt }, ReconnectAction::Connect { attempt }),
            ),
            _ => None,
        },
        ReconnectState::Connecting { attempt } => match event {
            ReconnectEvent::Established => Some(
                (ReconnectState::Connected, ReconnectAction::Replace),
            ),
            ReconnectEvent::Failed => {
                if attempt < max_attempts {
                    let following: usize = attempt + 1;
                    let delay_ms: u64 = delay_before(following);
                    Some(
                        (
                            ReconnectState::Waiting { attempt: following },
                            ReconnectAction::Wait { attempt: following, delay_ms },
                        ),
                    )
                } else {
                    Some((ReconnectState::Exhausted, ReconnectAction::GiveUp))
                }
            },
            _ => None,
        },
        _ => None,
    }
}

/// The actions that `events`, arriving in this order, give rise to from
/// `state` on. The sequence ends at the first event that is not awaited.
pub open spec fn reconnect_actions(
    max_attempts: usize,
    state: ReconnectState,
    events: Seq<ReconnectEvent>,
) -> Seq<ReconnectAction>
    decreases events.len(),
{
    if events.len() == 0 {
        Seq::empty()
    } else {
        match reconnect_next(max_attempts, state, events[0]) {
            None => Seq::empty(),
            Some((next, action)) => seq![action] + reconnect_actions(
                max_attempts,
                next,
                events.drop_first(),
            ),
        }
    }
}

/// All the actions of one reconnection: the first one, then those that
/// `events` give rise to.
pub open spec fn reconnect_run(max_attempts: usize, events: Seq<ReconnectEvent>) -> Seq<
    ReconnectAction,
> {
    seq![reconnect_first(max_attempts).1] + reconnect_actions(
        max_attempts,
        reconnect_first(max_attempts).0,
        events,
    )
}

/// How many connection attempts `actions` asks for.
pub open spec fn connect_count(actions: Seq<ReconnectAction>) -> nat
    decreases actions.len(),
{
    if actions.len() == 0 {
        0
    } else {
        let first: nat = if actions[0] is Connect {
            1
        } else {
            0
        };
        first + connect_count(actions.drop_first())
    }
}

/// Attempts that a reconnection in `state` may still ask for.
pub open spec fn attempts_left(max_attempts: usize, state: ReconnectState) -> int {
    match state {
        ReconnectState::Waiting { attempt } => max_attempts - attempt + 1,
        ReconnectState::Connecting { attempt } => max_attempts - attempt,
        ReconnectState::Connected => 0,
        ReconnectState::Exhausted => 0,
    }
}

/// If `actions[at]` asks for an attempt, the attempt lies within the budget
/// and the action just before it is the wait that belongs to that attempt.
pub open spec fn delay_precedes(max_attempts: usize, actions: Seq<ReconnectAction>, at: int) -> bool {
    actions[at] matches ReconnectAction::Connect { attempt } ==> {
        &&& 1 <= attempt <= max_attempts
        &&& at > 0
        &&& actions[at - 1] == wait_for(attempt)
    }
}

proof fn lemma_connect_count_unfold(first: ReconnectAction, rest: Seq<ReconnectAction>)
    ensures
        connect_count(seq![first] + rest) == connect_count(rest) + if first is Connect {
            1nat
        } else {
            0nat
        },
{
    assert((seq![first] + rest).drop_first() =~= rest);
}

/// From a well-formed state on, a reconnection asks for no more attempts
/// than `attempts_left` grants that state, whatever arrives.
pub proof fn lemma_attempts_bounded(
    max_attempts: usize,
    state: ReconnectState,
    events: Seq<ReconnectEvent>,
)
    requires
        state.wf(max_attempts),
    ensures
        connect_count(reconnect_actions(max_attempts, state, events)) <= attempts_left(
            max_attempts,
            state,
        ),
    decreases events.len(),
{
    if events.len() > 0 {
        match reconnect_next(max_attempts, state, events[0]) {
            None => {},
            Some((next, action)) => {
                lemma_attempts_bounded(max_attempts, next, events.drop_first());
                lemma_connect_count_unfold(
                    action,
                    reconnect_actions(max_attempts, next, events.drop_first()),
                );
            },
        }
    }
}

/// A reconnection never makes more than `max_attempts` attempts.
pub proof fn lemma_attempts_capped(max_attempts: usize, events: Seq<ReconnectEvent>)
    ensures
        connect_count(reconnect_run(max_attempts, events)) <= max_attempts,
{
    let first = reconnect_first(max_attempts);
    lemma_attempts_bounded(max_attempts, first.0, events);
    lemma_connect_count_unfold(first.1, reconnect_actions(max_attempts, first.0, events));
}

proof fn lemma_delay_precedes_from(
    max_attempts: usize,
    state: ReconnectState,
    events: Seq<ReconnectEvent>,
)
    requires
        state.wf(max_attempts),
    ensures
        ({
            let actions = reconnect_actions(max_attempts, state, events);
            &&& forall|at: int|
                1 <= at < actions.len() ==> #[trigger] delay_precedes(max_attempts, actions, at)
            &&& actions.len() > 0 ==> (actions[0] matches ReconnectAction::Connect { attempt }
                ==> state == ReconnectState::Waiting { attempt })
        }),
    decreases events.len(),
{
    if events.len() > 0 {
        match reconnect_next(max_attempts, state, events[0]) {
            None => {},
            Some((next, action)) => {
                let tail = reconnect_actions(max_attempts, next, events.drop_first());
                let actions = reconnect_actions(max_attempts, state, events);
                lemma_delay_precedes_from(max_attempts, next, events.drop_first());
                assert(actions == seq![action] + tail);
                assert forall|at: int| 1 <= at < actions.len() implies #[trigger] delay_precedes(
                    max_attempts,
                    actions,
                    at,
                ) by {
                    assert(actions[at] == tail[at - 1]);
                    if at >= 2 {
                        assert(actions[at - 1] == tail[at - 2]);
                        assert(delay_precedes(max_attempts, tail, at - 1));
                    }
                }
            },
        }
    }
}

/// In every reconnection, each attempt `n` lies within the budget and comes
/// directly after a wait of `saturated_delay_ms(n)` milliseconds.
pub proof fn lemma_delay_before_each_attempt(max_attempts: usize, events: Seq<ReconnectEvent>)
    ensures
        forall|at: int|
            0 <= at < reconnect_run(max_attempts, events).len() ==> #[trigger] delay_precedes(
                max_attempts,
                reconnect_run(max_attempts, events),
                at,
            ),
{
    let first = reconnect_first(max_attempts);
    let tail = reconnect_actions(max_attempts, first.0, events);
    let run = reconnect_run(max_attempts, events);
    lemma_delay_precedes_from(max_attempts, first.0, events);
    assert forall|at: int| 0 <= at < run.len() implies #[trigger] delay_precedes(
        max_attempts,
        run,
        at,
    ) by {
        if at >= 1 {
            assert(run[at] == tail[at - 1]);
            if at >= 2 {
                assert(run[at - 1] == tail[at - 2]);
                assert(delay_precedes(max_attempts, tail, at - 1));
            }
        }
    }
}

/// The milliseconds that `actions` asks to wait, all together.
pub open spec fn total_wait_ms(actions: Seq<ReconnectAction>) -> nat
    decreases actions.len(),
{
    if actions.len() == 0 {
        0
    } else {
        let first: nat = match actions[0] {
            ReconnectAction::Wait { delay_ms, .. } => delay_ms as nat,
            _ => 0,
        };
        first + total_wait_ms(actions.drop_first())
    }
}

/// The backoff window of `attempts` attempts: the delays before each of
/// them, added up.
pub open spec fn window_ms(attempts: nat) -> nat
    decreases attempts,
{
    if attempts == 0 {
        0
    } else {
        window_ms((attempts - 1) as nat) + saturated_delay_ms(attempts)
    }
}

/// What a reconnection gets to see when its first `failures` attempts fail
/// and the one after them, if `then_connects`, succeeds.
pub open spec fn attempt_events(failures: nat, then_connects: bool) -> Seq<ReconnectEvent>
    decreases failures,
{
    if failures == 0 {
        if then_connects {
            seq![ReconnectEvent::DelayElapsed, ReconnectEvent::Established]
        } else {
            Seq::empty()
        }
    } else {
        seq![ReconnectEvent::DelayElapsed, ReconnectEvent::Failed] + attempt_events(
            (failures - 1) as nat,
            then_connects,
        )
    }
}

proof fn lemma_reconnect_unfold(
    max_attempts: usize,
    state: ReconnectState,
    first: ReconnectEvent,
    rest: Seq<ReconnectEvent>,
)
    ensures
        reconnect_actions(max_attempts, state, seq![first] + rest) == match reconnect_next(
            max_attempts,
            state,
            first,
        ) {
            None => Seq::empty(),
            Some((next, action)) => seq![action] + reconnect_actions(max_attempts, next, rest),
        },
{
    assert((seq![first] + rest).drop_first() =~= rest);
}

proof fn lemma_total_wait_unfold(first: ReconnectAction, rest: Seq<ReconnectAction>)
    ensures
        total_wait_ms(seq![first] + rest) == total_wait_ms(rest) + match first {
            ReconnectAction::Wait { delay_ms, .. } => delay_ms as nat,
            _ => 0nat,
        },
{
    assert((seq![first] + rest).drop_first() =~= rest);
}

proof fn lemma_window_grows(earlier: nat, later: nat)
    requires
        earlier <= later,
    ensures
        window_ms(earlier) <= window_ms(later),
    decreases later,
{
    if earlier < later {
        lemma_window_grows(earlier, (later - 1) as nat);
    }
}

proof fn lemma_outcome_from_waiting(
    max_attempts: usize,
    attempt: usize,
    failures: nat,
    then_connects: bool,
)
    requires
        1 <= attempt <= max_attempts,
        then_connects ==> attempt + failures <= max_attempts,
        !then_connects ==> attempt + failures == max_attempts + 1,
    ensures
        ({
            let actions = reconnect_actions(
                max_attempts,
                ReconnectState::Waiting { attempt },
                attempt_events(failures, then_connects),
            );
            let last = if then_connects {
                (attempt + failures) as nat
            } else {
                max_attempts as nat
            };
            &&& actions.len() > 0
            &&& actions.last() == if then_connects {
                ReconnectAction::Replace
            } else {
                ReconnectAction::GiveUp
            }
            &&& connect_count(actions) == last - attempt + 1
            &&& total_wait_ms(actions) + window_ms(attempt as nat) == window_ms(last)
        }),
    decreases failures,
{
    let waiting = ReconnectState::Waiting { attempt };
    let connecting = ReconnectState::Connecting { attempt };
    let connect = ReconnectAction::Connect { attempt };
    let none = Seq::<ReconnectAction>::empty();
    let events = attempt_events(failures, then_connects);
    if failures == 0 {
        let established = seq![ReconnectEvent::Established];
        assert(events =~= seq![ReconnectEvent::DelayElapsed] + (established + Seq::empty()));
        lemma_reconnect_unfold(
            max_attempts,
            waiting,
            ReconnectEvent::DelayElapsed,
            established + Seq::empty(),
        );
        lemma_reconnect_unfold(
            max_attempts,
            connecting,
            ReconnectEvent::Established,
            Seq::empty(),
        );
        let actions = seq![connect] + (seq![ReconnectAction::Replace] + none);
        assert(reconnect_actions(max_attempts, waiting, events) == actions);
        lemma_connect_count_unfold(connect, seq![ReconnectAction::Replace] + none);
        lemma_connect_count_unfold(ReconnectAction::Replace, none);
        lemma_total_wait_unfold(connect, seq![ReconnectAction::Replace] + none);
        lemma_total_wait_unfold(ReconnectAction::Replace, none);
    } else {
        let rest = attempt_events((failures - 1) as nat, then_connects);
        assert(events =~= seq![ReconnectEvent::DelayElapsed] + (seq![ReconnectEvent::Failed]
            + rest));
        lemma_reconnect_unfold(
            max_attempts,
            waiting,
            ReconnectEvent::DelayElapsed,
            seq![ReconnectEvent::Failed] + rest,
        );
        lemma_reconnect_unfold(max_attempts, connecting, ReconnectEvent::Failed, rest);
        if attempt < max_attempts {
            let following = (attempt + 1) as usize;
            let tail = reconnect_actions(
                max_attempts,
                ReconnectState::Waiting { attempt: following },
                rest,
            );
            lemma_outcome_from_waiting(
                max_attempts,
                following,
                (failures - 1) as nat,
                then_connects,
            );
            let wait = wait_for(following);
            let actions = seq![connect] + (seq![wait] + tail);
            assert(reconnect_actions(max_attempts, waiting, events) == actions);
            assert(actions.last() == tail.last());
            lemma_connect_count_unfold(connect, seq![wait] + tail);
            lemma_connect_count_unfold(wait, tail);
            lemma_total_wait_unfold(connect, seq![wait] + tail);
            lemma_total_wait_unfold(wait, tail);
        } else {
            assert(rest =~= Seq::<ReconnectEvent>::empty());
            let actions = seq![connect] + (seq![ReconnectAction::GiveUp] + none);
            assert(reconnect_actions(max_attempts, waiting, events) == actions);
            lemma_connect_count_unfold(connect, seq![ReconnectAction::GiveUp] + none);
            lemma_connect_count_unfold(ReconnectAction::GiveUp, none);
            lemma_total_wait_unfold(connect, seq![ReconnectAction::GiveUp] + none);
            lemma_total_wait_unfold(ReconnectAction::GiveUp, none);
        }
    }
}

/// When the upstream is back in time, that is, when after `failures`
/// failed attempts the next one is still within the budget and connects,
/// the reconnection ends by replacing the connection. It has then made
/// `failures + 1` attempts and waited the backoff window of as many, which
/// is no longer than the window of the whole budget.
pub proof fn lemma_reconnects_within_window(max_attempts: usize, failures: nat)
    requires
        failures < max_attempts,
    ensures
        reconnect_run(max_attempts, attempt_events(failures, true)).last()
            == ReconnectAction::Replace,
        connect_count(reconnect_run(max_attempts, attempt_events(failures, true))) == failures
            + 1,
        total_wait_ms(reconnect_run(max_attempts, attempt_events(failures, true))) == window_ms(
            failures + 1,
        ),
        window_ms(failures + 1) <= window_ms(max_attempts as nat),
{
    let first = reconnect_first(max_attempts);
    let tail = reconnect_actions(max_attempts, first.0, attempt_events(failures, true));
    lemma_outcome_from_waiting(max_attempts, 1, failures, true);
    lemma_connect_count_unfold(first.1, tail);
    lemma_total_wait_unfold(first.1, tail);
    assert((seq![first.1] + tail).last() == tail.last());
    assert(window_ms(1) == saturated_delay_ms(1)) by {
        reveal_with_fuel(window_ms, 2);
    }
    lemma_window_grows(failures + 1, max_attempts as nat);
}

/// When every attempt of the budget fails, the reconnection gives up, after
/// exactly `max_attempts` attempts and the whole backoff window.
pub proof fn lemma_gives_up_after_budget(max_attempts: usize)
    ensures
        reconnect_run(max_attempts, attempt_events(max_attempts as nat, false)).last()
            == ReconnectAction::GiveUp,
        connect_count(reconnect_run(max_attempts, attempt_events(max_attempts as nat, false)))
            == max_attempts,
        total_wait_ms(reconnect_run(max_attempts, attempt_events(max_attempts as nat, false)))
            == window_ms(max_attempts as nat),
{
    let first = reconnect_first(max_attempts);
    let events = attempt_events(max_attempts as nat, false);
    let tail = reconnect_actions(max_attempts, first.0, events);
    if max_attempts == 0 {
        assert(seq![first.1] + tail =~= seq![ReconnectAction::GiveUp]);
        lemma_connect_count_unfold(first.1, tail);
        lemma_total_wait_unfold(first.1, tail);
    } else {
        lemma_outcome_from_waiting(max_attempts, 1, max_attempts as nat, false);
        lemma_connect_count_unfold(first.1, tail);
        lemma_total_wait_unfold(first.1, tail);
        assert((seq![first.1] + tail).last() == tail.last());
        assert(window_ms(1) == saturated_delay_ms(1)) by {
            reveal_with_fuel(window_ms, 2);
        }
    }
}

/// While no delay saturates, the backoff window of `attempts` attempts is
/// `100 * (2^attempts - 1)` milliseconds.
pub proof fn lemma_window_closed_form(attempts: nat)
    requires
        attempts <= LAST_EXACT_ATTEMPT,
    ensures
        window_ms(attempts) == 100 * (pow2(attempts) - 1),
    decreases attempts,
{
    if attempts == 0 {
        lemma2_to64();
    } else {
        lemma_window_closed_form((attempts - 1) as nat);
        lemma_delay_exact(attempts);
        lemma_pow2_unfold(attempts);
    }
}

} // verus!
