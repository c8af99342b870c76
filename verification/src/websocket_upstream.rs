//! Binding a client's WebSocket to an upstream one, and sending to it.

use crate::text;
use vstd::prelude::*;
use vstd::string::*;

verus! {

/// How long a handshake may take at most, from the name lookup to the first event sent: half a
/// minute.
pub const DEFAULT_UPSTREAM_HANDSHAKE_DEADLINE_MS: u64 = 30_000;

/// How long the parts of an execution may take.
#[derive(Debug, Clone, Copy, PartialEq, Eq, Structural)]
pub struct ExecutionTimeouts {
    pub first_byte_ms: Option<u64>,
    pub total_ms: Option<u64>,
}

/// How a request is executed upstream.
#[derive(Debug)]
pub struct AiExecutionDecision {
    pub timeouts: Option<ExecutionTimeouts>,
    /// The text under `model` in the request to the provider.
    pub provider_request_model: Option<String>,
    pub mapped_model: Option<String>,
}

/// The shorter of a deadline and a timeout, which counts only where it is there and not zero.
pub open spec fn shorter(deadline_ms: u64, timeout_ms: Option<u64>) -> u64 {
    match timeout_ms {
        Some(ms) => if 0 < ms < deadline_ms {
            ms
        } else {
            deadline_ms
        },
        None => deadline_ms,
    }
}

fn shorter_of(deadline_ms: u64, timeout_ms: Option<u64>) -> (r: u64)
    ensures
        r == shorter(deadline_ms, timeout_ms),
{
    match timeout_ms {
        Some(ms) => if 0 < ms && ms < deadline_ms {
            ms
        } else {
            deadline_ms
        },
        None => deadline_ms,
    }
}

/// How long a handshake may take: the least of the timeouts of the execution that are not zero and
/// of the default, in milliseconds.
pub fn resolve_upstream_handshake_deadline(decision: &AiExecutionDecision) -> (r: u64)
    ensures
        r == match decision.timeouts {
            Some(timeouts) => shorter(
                shorter(DEFAULT_UPSTREAM_HANDSHAKE_DEADLINE_MS, timeouts.first_byte_ms),
                timeouts.total_ms,
            ),
            None => DEFAULT_UPSTREAM_HANDSHAKE_DEADLINE_MS,
        },
        0 < r <= DEFAULT_UPSTREAM_HANDSHAKE_DEADLINE_MS,
{
    match &decision.timeouts {
        Some(timeouts) => shorter_of(
            shorter_of(DEFAULT_UPSTREAM_HANDSHAKE_DEADLINE_MS, timeouts.first_byte_ms),
            timeouts.total_ms,
        ),
        None => DEFAULT_UPSTREAM_HANDSHAKE_DEADLINE_MS,
    }
}

/// How far a request to the upstream has come.
#[derive(Debug, Clone, Copy, PartialEq, Eq, Structural)]
pub enum UpstreamRequestState {
    NotStarted,
    PossiblySent,
    Sent,
}

/// Why a message was not sent. `E` is what went wrong on the wire.
#[derive(Debug, Clone, Copy, PartialEq, Eq)]
pub enum ResponsesWebSocketUpstreamSendError<E> {
    PlanUsagePermitLost,
    Transport(E),
}

/// What sending a message waits for.
#[derive(Debug, Clone, Copy, PartialEq, Eq, Structural)]
pub enum SendStage {
    Start,
    Queueing,
    Flushing,
    Done,
}

/// What happened while a message is sent.
#[derive(Debug)]
pub enum SendEvent<E> {
    /// The message is there. The permit of the response still stands, or not.
    Begin { permit_healthy: bool },
    /// The message was queued, or not.
    Queued(Result<(), E>),
    /// The queue was flushed, or not.
    Flushed(Result<(), E>),
}

/// What is to be done next.
#[derive(Debug)]
pub enum SendAction<E> {
    /// Queue the message.
    Queue,
    /// Flush the queue. The message may be sent from now on, and is recorded so before anything
    /// else happens.
    RecordPossiblySentAndFlush,
    /// Record that the message was sent; it is done.
    RecordSent,
    /// Give up.
    Fail(ResponsesWebSocketUpstreamSendError<E>),
}

/// A message that is being sent.
#[derive(Debug, Clone, Copy, PartialEq, Eq, Structural)]
pub struct UpstreamSend {
    pub stage: SendStage,
    pub state: UpstreamRequestState,
}

impl UpstreamSend {
    /// A message that is not sent yet.
    pub fn new() -> (r: Self)
        ensures
            r == (UpstreamSend { stage: SendStage::Start, state: UpstreamRequestState::NotStarted }),
    {
        UpstreamSend { stage: SendStage::Start, state: UpstreamRequestState::NotStarted }
    }

    /// The event is the one that is waited for.
    pub open spec fn expects<E>(self, event: SendEvent<E>) -> bool {
        match event {
            SendEvent::Begin { .. } => self.stage is Start,
            SendEvent::Queued(_) => self.stage is Queueing,
            SendEvent::Flushed(_) => self.stage is Flushing,
        }
    }

    /// What is recorded agrees with how far the message has come.
    pub open spec fn wf(self) -> bool {
        &&& self.stage is Start || self.stage is Queueing ==> self.state is NotStarted
        &&& self.stage is Flushing ==> self.state is PossiblySent
    }

    /// What is to be done after an event.
    pub open spec fn action_after<E>(self, event: SendEvent<E>) -> SendAction<E> {
        match event {
            SendEvent::Begin { permit_healthy } => if permit_healthy {
                SendAction::Queue
            } else {
                SendAction::Fail(ResponsesWebSocketUpstreamSendError::PlanUsagePermitLost)
            },
            SendEvent::Queued(Ok(_)) => SendAction::RecordPossiblySentAndFlush,
            SendEvent::Queued(Err(e)) => SendAction::Fail(
                ResponsesWebSocketUpstreamSendError::Transport(e),
            ),
            SendEvent::Flushed(Ok(_)) => SendAction::RecordSent,
            SendEvent::Flushed(Err(e)) => SendAction::Fail(
                ResponsesWebSocketUpstreamSendError::Transport(e),
            ),
        }
    }

    /// How far the message has come after an event.
    pub open spec fn after<E>(self, event: SendEvent<E>) -> UpstreamSend {
        match self.action_after(event) {
            SendAction::Queue => UpstreamSend { stage: SendStage::Queueing, ..self },
            SendAction::RecordPossiblySentAndFlush => UpstreamSend {
                stage: SendStage::Flushing,
                state: UpstreamRequestState::PossiblySent,
            },
            SendAction::RecordSent => UpstreamSend {
                stage: SendStage::Done,
                state: UpstreamRequestState::Sent,
            },
            SendAction::Fail(_) => UpstreamSend { stage: SendStage::Done, ..self },
        }
    }

    /// Takes an event in, and says what is to be done next. The permit counts only before the
    /// message is queued: from then on the provider may have it.
    pub fn on_event<E>(&mut self, event: SendEvent<E>) -> (r: SendAction<E>)
        requires
            old(self).wf(),
            old(self).expects(event),
        ensures
            final(self).wf(),
            r == old(self).action_after(event),
            *final(self) == old(self).after(event),
    {
        match event {
            SendEvent::Begin { permit_healthy } => {
                if permit_healthy {
                    self.stage = SendStage::Queueing;
                    SendAction::Queue
                } else {
                    self.stage = SendStage::Done;
                    SendAction::Fail(ResponsesWebSocketUpstreamSendError::PlanUsagePermitLost)
                }
            },
            SendEvent::Queued(Ok(_)) => {
                self.stage = SendStage::Flushing;
                self.state = UpstreamRequestState::PossiblySent;
                SendAction::RecordPossiblySentAndFlush
            },
            SendEvent::Flushed(Ok(_)) => {
                self.stage = SendStage::Done;
                self.state = UpstreamRequestState::Sent;
                SendAction::RecordSent
            },
            SendEvent::Queued(Err(e)) | SendEvent::Flushed(Err(e)) => {
                self.stage = SendStage::Done;
                SendAction::Fail(ResponsesWebSocketUpstreamSendError::Transport(e))
            },
        }
    }
}

/// A message is recorded as sent only after it was recorded as possibly sent, and never taken back:
/// what may have reached the provider is never called unsent.
pub proof fn a_sent_message_was_possibly_sent<E>(send: UpstreamSend, event: SendEvent<E>)
    requires
        send.wf(),
        send.expects(event),
    ensures
        send.after(event).wf(),
        send.after(event).state is Sent ==> send.state is PossiblySent,
        send.after(event).state is PossiblySent ==> send.state is NotStarted || send.state
            is PossiblySent,
        send.after(event).state is NotStarted ==> send.state is NotStarted,
{
}

/// A message is not queued under a permit that is lost, and a message that was queued is not given
/// up for the permit's sake.
pub proof fn a_lost_permit_stops_only_unsent_messages<E>(send: UpstreamSend, event: SendEvent<E>)
    requires
        send.expects(event),
        send.wf(),
    ensures
        send.action_after(event) is Queue ==> event == (SendEvent::<E>::Begin {
            permit_healthy: true,
        }),
        send.action_after(event) == SendAction::<E>::Fail(
            ResponsesWebSocketUpstreamSendError::PlanUsagePermitLost,
        ) ==> send.after(event).state is NotStarted,
{
}

/// Why a client's connection was not bound to an upstream one.
#[derive(Debug, Clone, Copy, PartialEq, Eq)]
pub enum ResponsesWebSocketUpstreamBindError {
    PlanUsagePermitLost,
    Transport(&'static str),
}

/// Why it cannot be told what a connection would be bound to.
#[derive(Debug, Clone, Copy, PartialEq, Eq, Structural)]
pub enum UpstreamBindingIdentityError {
    MissingUpstreamUrl,
    InvalidUpstreamUrl,
    InvalidHandshakeHeaders,
}

/// What the errors of an upstream are called.
#[derive(Debug, Clone, Copy, PartialEq, Eq)]
pub struct UpstreamErrors {
    pub upstream_url_missing: &'static str,
    pub upstream_url_invalid: &'static str,
    pub headers_invalid: &'static str,
}

/// What happened while a connection is bound.
#[derive(Debug)]
pub enum BindEvent<E> {
    /// It was told what the connection is to be bound to, or not.
    Identified(Result<(), UpstreamBindingIdentityError>),
    /// The upstream was connected, or not.
    Connected(Result<(), &'static str>),
    /// The first event was made up, or not.
    EventPlanned(Result<(), &'static str>),
    /// The first event was sent, or not.
    EventSent(Result<(), ResponsesWebSocketUpstreamSendError<E>>),
    /// The deadline has passed.
    TimedOut,
}

/// What is to be done next.
#[derive(Debug)]
pub enum BindAction {
    Connect,
    PlanFirstEvent,
    SendFirstEvent,
    /// The connection is bound. The first response is under way, so the next is the second.
    Bound { client_model: String, provider_model: String, next_turn_index: u64 },
    Fail(ResponsesWebSocketUpstreamBindError),
}

/// What an action comes to, by its texts.
pub enum BindStep {
    Connect,
    PlanFirstEvent,
    SendFirstEvent,
    Bound { client_model: Seq<char>, provider_model: Seq<char>, next_turn_index: u64 },
    Fail(ResponsesWebSocketUpstreamBindError),
}

impl View for BindAction {
    type V = BindStep;

    open spec fn view(&self) -> BindStep {
        match *self {
            BindAction::Connect => BindStep::Connect,
            BindAction::PlanFirstEvent => BindStep::PlanFirstEvent,
            BindAction::SendFirstEvent => BindStep::SendFirstEvent,
            BindAction::Bound { client_model, provider_model, next_turn_index } => BindStep::Bound {
                client_model: client_model@,
                provider_model: provider_model@,
                next_turn_index,
            },
            BindAction::Fail(e) => BindStep::Fail(e),
        }
    }
}

/// The name of a model without the white space around it, where something is left.
pub open spec fn model_name(model: Option<Seq<char>>) -> Option<Seq<char>> {
    match model {
        Some(name) => if text::trimmed(name).len() > 0 {
            Some(text::trimmed(name))
        } else {
            None
        },
        None => None,
    }
}

fn trimmed_model(model: Option<&str>) -> (r: Option<&str>)
    ensures
        text::opt_view(r) == model_name(text::opt_view(model)),
{
    match model {
        Some(name) => {
            let name = text::trim(name);
            if name.is_empty() {
                None
            } else {
                Some(name)
            }
        },
        None => None,
    }
}

/// The model that the provider is asked for: that of the request, else the mapped one.
pub open spec fn provider_model_of(decision: AiExecutionDecision) -> Option<Seq<char>> {
    match model_name(text::opt_string(decision.provider_request_model)) {
        Some(name) => Some(name),
        None => model_name(text::opt_string(decision.mapped_model)),
    }
}

/// What comes of a connection whose first event was sent: it is bound, where both models are named.
pub open spec fn bound_step(decision: AiExecutionDecision, client_model: Option<Seq<char>>) -> BindStep {
    match (model_name(client_model), provider_model_of(decision)) {
        (None, _) => BindStep::Fail(
            ResponsesWebSocketUpstreamBindError::Transport("responses_websocket_model_missing"),
        ),
        (Some(_), None) => BindStep::Fail(
            ResponsesWebSocketUpstreamBindError::Transport(
                "responses_websocket_mapped_model_missing",
            ),
        ),
        (Some(client_model), Some(provider_model)) => BindStep::Bound {
            client_model,
            provider_model,
            next_turn_index: 2,
        },
    }
}

/// What the failure to tell what a connection is bound to is called.
pub open spec fn identity_error_name(
    error: UpstreamBindingIdentityError,
    errors: UpstreamErrors,
) -> &'static str {
    match error {
        UpstreamBindingIdentityError::MissingUpstreamUrl => errors.upstream_url_missing,
        UpstreamBindingIdentityError::InvalidUpstreamUrl => errors.upstream_url_invalid,
        UpstreamBindingIdentityError::InvalidHandshakeHeaders => errors.headers_invalid,
    }
}

/// What is to be done after an event while a connection is bound.
pub open spec fn step_after<E>(
    event: BindEvent<E>,
    errors: UpstreamErrors,
    decision: AiExecutionDecision,
    client_model: Option<Seq<char>>,
) -> BindStep {
    match event {
        BindEvent::Identified(Ok(_)) => BindStep::Connect,
        BindEvent::Identified(Err(e)) => BindStep::Fail(
            ResponsesWebSocketUpstreamBindError::Transport(identity_error_name(e, errors)),
        ),
        BindEvent::Connected(Ok(_)) => BindStep::PlanFirstEvent,
        BindEvent::Connected(Err(e)) => BindStep::Fail(
            ResponsesWebSocketUpstreamBindError::Transport(e),
        ),
        BindEvent::EventPlanned(Ok(_)) => BindStep::SendFirstEvent,
        BindEvent::EventPlanned(Err(e)) => BindStep::Fail(
            ResponsesWebSocketUpstreamBindError::Transport(e),
        ),
        BindEvent::EventSent(Ok(_)) => bound_step(decision, client_model),
        BindEvent::EventSent(Err(ResponsesWebSocketUpstreamSendError::PlanUsagePermitLost)) =>
            BindStep::Fail(ResponsesWebSocketUpstreamBindError::PlanUsagePermitLost),
        BindEvent::EventSent(Err(ResponsesWebSocketUpstreamSendError::Transport(_))) =>
            BindStep::Fail(
            ResponsesWebSocketUpstreamBindError::Transport(
                "responses_websocket_initial_send_failed",
            ),
        ),
        BindEvent::TimedOut => BindStep::Fail(
            ResponsesWebSocketUpstreamBindError::Transport(
                "responses_websocket_upstream_handshake_timeout",
            ),
        ),
    }
}

fn bound_action(decision: &AiExecutionDecision, client_model: Option<&str>) -> (r: BindAction)
    ensures
        r@ == bound_step(*decision, text::opt_view(client_model)),
{
    let client_model = match trimmed_model(client_model) {
        Some(name) => name.to_string(),
        None => return BindAction::Fail(
            ResponsesWebSocketUpstreamBindError::Transport("responses_websocket_model_missing"),
        ),
    };
    let provider_model = match trimmed_model(text::as_text(&decision.provider_request_model)) {
        Some(name) => name.to_string(),
        None => match trimmed_model(text::as_text(&decision.mapped_model)) {
            Some(name) => name.to_string(),
            None => return BindAction::Fail(
                ResponsesWebSocketUpstreamBindError::Transport(
                    "responses_websocket_mapped_model_missing",
                ),
            ),
        },
    };
    BindAction::Bound { client_model, provider_model, next_turn_index: 2 }
}

/// What is to be done after an event while a connection is bound: it is told what to bind to, then
/// connected, then the first event is made up and sent. `client_model` is the text under `model` in
/// the client's first event.
pub fn bind_responses_upstream_step<E>(
    event: BindEvent<E>,
    errors: &UpstreamErrors,
    decision: &AiExecutionDecision,
    client_model: Option<&str>,
) -> (r: BindAction)
    ensures
        r@ == step_after(event, *errors, *decision, text::opt_view(client_model)),
{
    match event {
        BindEvent::Identified(Ok(_)) => BindAction::Connect,
        BindEvent::Identified(Err(e)) => BindAction::Fail(
            ResponsesWebSocketUpstreamBindError::Transport(
                match e {
                    UpstreamBindingIdentityError::MissingUpstreamUrl => errors.upstream_url_missing,
                    UpstreamBindingIdentityError::InvalidUpstreamUrl => errors.upstream_url_invalid,
                    UpstreamBindingIdentityError::InvalidHandshakeHeaders => errors.headers_invalid,
                },
            ),
        ),
        BindEvent::Connected(Ok(_)) => BindAction::PlanFirstEvent,
        BindEvent::EventPlanned(Ok(_)) => BindAction::SendFirstEvent,
        BindEvent::Connected(Err(e)) => BindAction::Fail(
            ResponsesWebSocketUpstreamBindError::Transport(e),
        ),
        BindEvent::EventPlanned(Err(e)) => BindAction::Fail(
            ResponsesWebSocketUpstreamBindError::Transport(e),
        ),
        BindEvent::EventSent(Ok(_)) => bound_action(decision, client_model),
        BindEvent::EventSent(Err(ResponsesWebSocketUpstreamSendError::PlanUsagePermitLost)) =>
            BindAction::Fail(ResponsesWebSocketUpstreamBindError::PlanUsagePermitLost),
        BindEvent::EventSent(Err(ResponsesWebSocketUpstreamSendError::Transport(_))) =>
            BindAction::Fail(
            ResponsesWebSocketUpstreamBindError::Transport(
                "responses_websocket_initial_send_failed",
            ),
        ),
        BindEvent::TimedOut => BindAction::Fail(
            ResponsesWebSocketUpstreamBindError::Transport(
                "responses_websocket_upstream_handshake_timeout",
            ),
        ),
    }
}

/// Whether a bound connection serves another request: it is open, and the request would be bound to
/// the same. `identity_matches` is none where it cannot be told what the request would be bound to.
pub fn decision_reuses_bound_upstream(upstream_open: bool, identity_matches: Option<bool>) -> (r:
    bool)
    ensures
        r == (upstream_open && identity_matches == Some(true)),
{
    match identity_matches {
        Some(matches) => upstream_open && matches,
        None => false,
    }
}

/// What stands in the way of a bound connection serving another request. `changed_fields` is none
/// where it cannot be told what the request would be bound to.
pub fn decision_bound_upstream_change_fields(
    upstream_open: bool,
    changed_fields: Option<Vec<String>>,
) -> (r: Vec<String>)
    ensures
        if !upstream_open {
            r@.len() == 1 && r@[0]@ == "upstream_socket"@
        } else {
            match changed_fields {
                Some(fields) => r == fields,
                None => r@.len() == 1 && r@[0]@ == "binding_identity_invalid"@,
            }
        },
{
    if !upstream_open {
        let mut fields: Vec<String> = Vec::new();
        fields.push("upstream_socket".to_string());
        return fields;
    }
    match changed_fields {
        Some(fields) => fields,
        None => {
            let mut fields: Vec<String> = Vec::new();
            fields.push("binding_identity_invalid".to_string());
            fields
        },
    }
}

} // verus!
