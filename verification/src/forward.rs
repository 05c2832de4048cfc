//! Per-request forwarding: where a request is sent, how large its body may
//! be, and what the client is told when the upstream link fails.

use vstd::prelude::*;

verus! {

/// Largest request body, in bytes, that is buffered and forwarded.
pub const MAX_REQUEST_SIZE: usize = 1024 * 1024;

/// Connection attempts granted to one reconnection of the upstream link.
pub const MAX_CLIENT_CONN_RETRIES: usize = 10;

/// The replies the proxy produces itself, without an upstream response.
#[derive(Clone, Copy, Debug, PartialEq, Eq, Structural)]
pub enum ProxyFailure {
    /// The request body could not be buffered within `MAX_REQUEST_SIZE`.
    BadRequest,
    /// The upstream link could not be re-established.
    BadGateway,
    /// The link was re-established, and the request failed on it again.
    GatewayTimeout,
}

impl ProxyFailure {
    /// The HTTP status code that stands for the failure.
    pub open spec fn spec_status(self) -> u16 {
        match self {
            ProxyFailure::BadRequest => 400,
            ProxyFailure::BadGateway => 502,
            ProxyFailure::GatewayTimeout => 504,
        }
    }

    /// The text that goes with the status.
    pub open spec fn spec_message(self) -> Seq<char> {
        match self {
            ProxyFailure::BadRequest => "Failed to buffer request body"@,
            ProxyFailure::BadGateway => "Failed to reconnect"@,
            ProxyFailure::GatewayTimeout => "Upstream unreachable"@,
        }
    }

    /// The HTTP status code sent to the client.
    #[verifier::when_used_as_spec(spec_status)]
    pub fn status(self) -> (code: u16)
        ensures
            code == self.spec_status(),
    {
        match self {
            ProxyFailure::BadRequest => 400,
            ProxyFailure::BadGateway => 502,
            ProxyFailure::GatewayTimeout => 504,
        }
    }

    /// The body sent to the client along with the status.
    pub fn message(self) -> (text: &'static str)
        ensures
            text@ == self.spec_message(),
    {
        match self {
            ProxyFailure::BadRequest => "Failed to buffer request body",
            ProxyFailure::BadGateway => "Failed to reconnect",
            ProxyFailure::GatewayTimeout => "Upstream unreachable",
        }
    }
}

/// Where one request stands on its way through the proxy.
#[derive(Clone, Copy, Debug, PartialEq, Eq, Structural)]
pub enum ForwardState {
    /// The request body is being buffered.
    Buffering,
    /// The request has been handed to the upstream link for the first time.
    Sending,
    /// The first send failed; the link is being re-established.
    Reconnecting,
    /// The request has been handed to the fresh link, for the last time.
    Resending,
    /// The client has its reply.
    Finished,
}

/// What the surroundings report back; `R` is the upstream's response.
#[derive(Debug, PartialEq, Eq)]
pub enum ForwardEvent<R> {
    /// The whole body was read and is `len` bytes long.
    BodyBuffered { len: usize },
    /// Reading the body failed, or it outgrew the buffer.
    BodyFailed,
    /// The upstream answered the request.
    Answered(R),
    /// The link was closed or broke while the request was on it.
    SendFailed,
    /// The link has a fresh connection.
    Reconnected,
    /// Every reconnection attempt failed.
    ReconnectExhausted,
}

/// What the surroundings are asked to do next.
#[derive(Debug, PartialEq, Eq)]
pub enum ForwardAction<R> {
    /// Send the buffered request on the upstream link.
    Send,
    /// Re-establish the link, trying at most `max_attempts` times.
    Reconnect { max_attempts: usize },
    /// Hand the upstream's response to the client as it is.
    Relay(R),
    /// Answer the client with the proxy's own error reply.
    Reject(ProxyFailure),
}

/// The forwarding rule: the next state and the action for each event that
/// the state awaits, and `None` for an event it does not await.
pub open spec fn forward_next<R>(state: ForwardState, event: ForwardEvent<R>) -> Option<
    (ForwardState, ForwardAction<R>),
> {
    match (state, event) {
        (ForwardState::Buffering, ForwardEvent::BodyBuffered { len }) => if len
            <= MAX_REQUEST_SIZE {
            Some((ForwardState::Sending, ForwardAction::Send))
        } else {
            Some((ForwardState::Finished, ForwardAction::Reject(ProxyFailure::BadRequest)))
        },
        (ForwardState::Buffering, ForwardEvent::BodyFailed) => Some(
            (ForwardState::Finished, ForwardAction::Reject(ProxyFailure::BadRequest)),
        ),
        (ForwardState::Sending, ForwardEvent::Answered(response)) => Some(
            (ForwardState::Finished, ForwardAction::Relay(response)),
        ),
        (ForwardState::Sending, ForwardEvent::SendFailed) => Some(
            (
                ForwardState::Reconnecting,
                ForwardAction::Reconnect { max_attempts: MAX_CLIENT_CONN_RETRIES },
            ),
        ),
        (ForwardState::Reconnecting, ForwardEvent::Reconnected) => Some(
            (ForwardState::Resending, ForwardAction::Send),
        ),
        (ForwardState::Reconnecting, ForwardEvent::ReconnectExhausted) => Some(
            (ForwardState::Finished, ForwardAction::Reject(ProxyFailure::BadGateway)),
        ),
        (ForwardState::Resending, ForwardEvent::Answered(response)) => Some(
            (ForwardState::Finished, ForwardAction::Relay(response)),
        ),
        (ForwardState::Resending, ForwardEvent::SendFailed) => Some(
            (ForwardState::Finished, ForwardAction::Reject(ProxyFailure::GatewayTimeout)),
        ),
        _ => None,
    }
}

/// Advances one request by one event.
pub fn forward_step<R>(state: ForwardState, event: ForwardEvent<R>) -> (next: Option<
    (ForwardState, ForwardAction<R>),
>)
    ensures
        next == forward_next(state, event),
{
    match state {
        ForwardState::Buffering => match event {
            ForwardEvent::BodyBuffered { len } => {
                if len <= MAX_REQUEST_SIZE {
                    Some((ForwardState::Sending, ForwardAction::Send))
                } else {
                    Some((ForwardState::Finished, ForwardAction::Reject(ProxyFailure::BadRequest)))
                }
            },
            ForwardEvent::BodyFailed => Some(
                (ForwardState::Finished, ForwardAction::Reject(ProxyFailure::BadRequest)),
            ),
            _ => None,
        },
        ForwardState::Sending => match event {
            ForwardEvent::Answered(response) => Some(
                (ForwardState::Finished, ForwardAction::Relay(response)),
            ),
            ForwardEvent::SendFailed => Some(
                (
                    ForwardState::Reconnecting,
                    ForwardAction::Reconnect { max_attempts: MAX_CLIENT_CONN_RETRIES },
                ),
            ),
            _ => None,
        },
        ForwardState::Reconnecting => match event {
            ForwardEvent::Reconnected => Some((ForwardState::Resending, ForwardAction::Send)),
            ForwardEvent::ReconnectExhausted => Some(
                (ForwardState::Finished, ForwardAction::Reject(ProxyFailure::BadGateway)),
            ),
            _ => None,
        },
        ForwardState::Resending => match event {
            ForwardEvent::Answered(response) => Some(
                (ForwardState::Finished, ForwardAction::Relay(response)),
            ),
            ForwardEvent::SendFailed => Some(
                (ForwardState::Finished, ForwardAction::Reject(ProxyFailure::GatewayTimeout)),
            ),
            _ => None,
        },
        ForwardState::Finished => None,
    }
}

/// The actions that `events`, arriving in this order, give rise to from
/// `state` on. The sequence ends at the first event that is not awaited.
pub open spec fn forward_actions<R>(state: ForwardState, events: Seq<ForwardEvent<R>>) -> Seq<
    ForwardAction<R>,
>
    decreases events.len(),
{
    if events.len() == 0 {
        Seq::empty()
    } else {
        match forward_next(state, events[0]) {
            None => Seq::empty(),
            Some((next, action)) => seq![action] + forward_actions(next, events.drop_first()),
        }
    }
}

/// How often `actions` asks for the request to be sent upstream.
pub open spec fn send_count<R>(actions: Seq<ForwardAction<R>>) -> nat
    decreases actions.len(),
{
    if actions.len() == 0 {
        0
    } else {
        let first: nat = if actions[0] is Send {
            1
        } else {
            0
        };
        first + send_count(actions.drop_first())
    }
}

/// Sends that a request in `state` may still ask for.
pub open spec fn sends_left(state: ForwardState) -> nat {
    match state {
        ForwardState::Buffering => 2,
        ForwardState::Sending => 1,
        ForwardState::Reconnecting => 1,
        ForwardState::Resending => 0,
        ForwardState::Finished => 0,
    }
}

proof fn lemma_actions_unfold<R>(
    state: ForwardState,
    first: ForwardEvent<R>,
    rest: Seq<ForwardEvent<R>>,
)
    ensures
        forward_actions(state, seq![first] + rest) == match forward_next(state, first) {
            None => Seq::empty(),
            Some((next, action)) => seq![action] + forward_actions(next, rest),
        },
{
    assert((seq![first] + rest).drop_first() =~= rest);
}

proof fn lemma_send_count_unfold<R>(first: ForwardAction<R>, rest: Seq<ForwardAction<R>>)
    ensures
        send_count(seq![first] + rest) == send_count(rest) + if first is Send {
            1nat
        } else {
            0nat
        },
{
    assert((seq![first] + rest).drop_first() =~= rest);
}

/// Nothing more is asked for once the client has its reply.
pub proof fn lemma_finished_is_final<R>(events: Seq<ForwardEvent<R>>)
    ensures
        forward_actions(ForwardState::Finished, events) == Seq::<ForwardAction<R>>::empty(),
{
}

/// From any state on, a request asks for no more sends than `sends_left`
/// grants that state, whatever arrives.
pub proof fn lemma_sends_bounded<R>(state: ForwardState, events: Seq<ForwardEvent<R>>)
    ensures
        send_count(forward_actions(state, events)) <= sends_left(state),
    decreases events.len(),
{
    if events.len() > 0 {
        match forward_next(state, events[0]) {
            None => {},
            Some((next, action)) => {
                lemma_sends_bounded(next, events.drop_first());
                lemma_send_count_unfold(action, forward_actions(next, events.drop_first()));
            },
        }
    }
}

/// Whatever happens to a request, it is sent upstream at most twice: once,
/// and once more after a reconnection.
pub proof fn lemma_at_most_two_sends<R>(events: Seq<ForwardEvent<R>>)
    ensures
        send_count(forward_actions(ForwardState::Buffering, events)) <= 2,
{
    lemma_sends_bounded(ForwardState::Buffering, events);
}

/// A body larger than `MAX_REQUEST_SIZE`, or one that cannot be read, is
/// answered with `BadRequest`, and the request is never sent upstream,
/// whatever arrives afterwards.
pub proof fn lemma_unbuffered_body_rejected<R>(
    first: ForwardEvent<R>,
    later: Seq<ForwardEvent<R>>,
)
    requires
        first is BodyFailed || (first matches ForwardEvent::BodyBuffered { len } && len
            > MAX_REQUEST_SIZE),
    ensures
        forward_actions(ForwardState::Buffering, seq![first] + later) == seq![
            ForwardAction::<R>::Reject(ProxyFailure::BadRequest),
        ],
        send_count(forward_actions(ForwardState::Buffering, seq![first] + later)) == 0,
{
    lemma_actions_unfold(ForwardState::Buffering, first, later);
    lemma_finished_is_final(later);
    let reject = ForwardAction::<R>::Reject(ProxyFailure::BadRequest);
    assert(seq![reject] + Seq::empty() =~= seq![reject]);
    lemma_send_count_unfold(reject, Seq::empty());
}

/// A request whose body fits, on a link that works, is sent once, and the
/// client receives exactly the response that the upstream gave.
pub proof fn lemma_healthy_upstream_relayed<R>(
    len: usize,
    response: R,
    later: Seq<ForwardEvent<R>>,
)
    requires
        len <= MAX_REQUEST_SIZE,
    ensures
        forward_actions(
            ForwardState::Buffering,
            seq![ForwardEvent::BodyBuffered { len }, ForwardEvent::Answered(response)] + later,
        ) == seq![ForwardAction::Send, ForwardAction::Relay(response)],
{
    let buffered = ForwardEvent::<R>::BodyBuffered { len };
    let answered = ForwardEvent::Answered(response);
    assert(seq![buffered, answered] + later =~= seq![buffered] + (seq![answered] + later));
    lemma_actions_unfold(ForwardState::Buffering, buffered, seq![answered] + later);
    lemma_actions_unfold(ForwardState::Sending, answered, later);
    lemma_finished_is_final(later);
    let send = ForwardAction::<R>::Send;
    let relay = ForwardAction::Relay(response);
    assert(seq![send] + (seq![relay] + Seq::empty()) =~= seq![send, relay]);
}

/// When the first send fails, the link is re-established with
/// `MAX_CLIENT_CONN_RETRIES` attempts and the outcome is one of three: no
/// connection and `BadGateway`; a connection, a second send and the
/// upstream's response; a connection, a second send that fails too, and
/// `GatewayTimeout`.
pub proof fn lemma_severed_link_outcomes<R>(
    len: usize,
    response: R,
    later: Seq<ForwardEvent<R>>,
)
    requires
        len <= MAX_REQUEST_SIZE,
    ensures
        forward_actions(
            ForwardState::Buffering,
            seq![
                ForwardEvent::BodyBuffered { len },
                ForwardEvent::SendFailed,
                ForwardEvent::ReconnectExhausted,
            ] + later,
        ) == seq![
            ForwardAction::<R>::Send,
            ForwardAction::Reconnect { max_attempts: MAX_CLIENT_CONN_RETRIES },
            ForwardAction::Reject(ProxyFailure::BadGateway),
        ],
        forward_actions(
            ForwardState::Buffering,
            seq![
                ForwardEvent::BodyBuffered { len },
                ForwardEvent::SendFailed,
                ForwardEvent::Reconnected,
                ForwardEvent::Answered(response),
            ] + later,
        ) == seq![
            ForwardAction::Send,
            ForwardAction::Reconnect { max_attempts: MAX_CLIENT_CONN_RETRIES },
            ForwardAction::Send,
            ForwardAction::Relay(response),
        ],
        forward_actions(
            ForwardState::Buffering,
            seq![
                ForwardEvent::BodyBuffered { len },
                ForwardEvent::SendFailed,
                ForwardEvent::Reconnected,
                ForwardEvent::SendFailed,
            ] + later,
        ) == seq![
            ForwardAction::<R>::Send,
            ForwardAction::Reconnect { max_attempts: MAX_CLIENT_CONN_RETRIES },
            ForwardAction::Send,
            ForwardAction::Reject(ProxyFailure::GatewayTimeout),
        ],
{
    let buffered = ForwardEvent::<R>::BodyBuffered { len };
    let failed = ForwardEvent::<R>::SendFailed;
    let exhausted = ForwardEvent::<R>::ReconnectExhausted;
    let reconnected = ForwardEvent::<R>::Reconnected;
    let answered = ForwardEvent::Answered(response);
    let send = ForwardAction::<R>::Send;
    let reconnect = ForwardAction::<R>::Reconnect { max_attempts: MAX_CLIENT_CONN_RETRIES };
    let none = Seq::<ForwardAction<R>>::empty();
    lemma_finished_is_final(later);

    assert(seq![buffered, failed, exhausted] + later =~= seq![buffered] + (seq![failed] + (
    seq![exhausted] + later)));
    lemma_actions_unfold(
        ForwardState::Buffering,
        buffered,
        seq![failed] + (seq![exhausted] + later),
    );
    lemma_actions_unfold(ForwardState::Sending, failed, seq![exhausted] + later);
    lemma_actions_unfold(ForwardState::Reconnecting, exhausted, later);
    let bad_gateway = ForwardAction::<R>::Reject(ProxyFailure::BadGateway);
    assert(seq![send] + (seq![reconnect] + (seq![bad_gateway] + none)) =~= seq![
        send,
        reconnect,
        bad_gateway,
    ]);

    assert(seq![buffered, failed, reconnected, answered] + later =~= seq![buffered] + (
    seq![failed] + (seq![reconnected] + (seq![answered] + later))));
    lemma_actions_unfold(
        ForwardState::Buffering,
        buffered,
        seq![failed] + (seq![reconnected] + (seq![answered] + later)),
    );
    lemma_actions_unfold(
        ForwardState::Sending,
        failed,
        seq![reconnected] + (seq![answered] + later),
    );
    lemma_actions_unfold(ForwardState::Reconnecting, reconnected, seq![answered] + later);
    lemma_actions_unfold(ForwardState::Resending, answered, later);
    let relay = ForwardAction::Relay(response);
    assert(seq![send] + (seq![reconnect] + (seq![send] + (seq![relay] + none))) =~= seq![
        send,
        reconnect,
        send,
        relay,
    ]);

    assert(seq![buffered, failed, reconnected, failed] + later =~= seq![buffered] + (seq![failed]
        + (seq![reconnected] + (seq![failed] + later))));
    lemma_actions_unfold(
        ForwardState::Buffering,
        buffered,
        seq![failed] + (seq![reconnected] + (seq![failed] + later)),
    );
    lemma_actions_unfold(
        ForwardState::Sending,
        failed,
        seq![reconnected] + (seq![failed] + later),
    );
    lemma_actions_unfold(ForwardState::Reconnecting, reconnected, seq![failed] + later);
    lemma_actions_unfold(ForwardState::Resending, failed, later);
    let timeout = ForwardAction::<R>::Reject(ProxyFailure::GatewayTimeout);
    assert(seq![send] + (seq![reconnect] + (seq![send] + (seq![timeout] + none))) =~= seq![
        send,
        reconnect,
        send,
        timeout,
    ]);
}

} // verus!
