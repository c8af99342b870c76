use aether_usage_policy::admission::{AdmissionPermit, AdmissionPermitHealth};
use aether_usage_policy::error::{GatewayError, RuntimeSemaphoreError};
use aether_usage_policy::plan_windows::{
    PlanUsageAdmissionError, PlanUsagePolicyRejection, PolicyLimit,
};
use aether_usage_policy::websocket_admission::{
    map_plan_admission_error, plan_permit_loss_error, responses_websocket_plan_admission_close,
    responses_websocket_plan_permit_is_healthy,
};
use aether_usage_policy::websocket_upstream::{
    bind_responses_upstream_step, decision_bound_upstream_change_fields,
    decision_reuses_bound_upstream, resolve_upstream_handshake_deadline, AiExecutionDecision,
    BindAction, BindEvent, ExecutionTimeouts, ResponsesWebSocketUpstreamBindError,
    ResponsesWebSocketUpstreamSendError, SendAction, SendEvent, UpstreamBindingIdentityError,
    UpstreamErrors, UpstreamRequestState, UpstreamSend, DEFAULT_UPSTREAM_HANDSHAKE_DEADLINE_MS,
};
use std::sync::atomic::{AtomicBool, Ordering};
use std::sync::Arc;

#[test]
fn plan_limit_rejection_is_a_machine_readable_429() {
    let error = PlanUsageAdmissionError::Rejected(PlanUsagePolicyRejection {
        metric: "request_count",
        limit: PolicyLimit::Requests(10),
        retry_after: 60,
        window: "rolling",
    });

    let mapped = map_plan_admission_error(&error);
    assert_eq!(mapped.status, 429);
    assert_eq!(mapped.error_type, "rate_limit_error");
    assert_eq!(mapped.code, "plan_usage_limit_exceeded");
    assert_eq!(
        responses_websocket_plan_admission_close(&error),
        (1013, "plan_usage_limit_exceeded")
    );
}

#[test]
fn saturated_plan_concurrency_uses_the_same_limit_error() {
    let error = PlanUsageAdmissionError::Runtime(RuntimeSemaphoreError::Saturated {
        gate: "plan_usage_concurrency".to_string(),
        limit: 2,
    });

    let mapped = map_plan_admission_error(&error);
    assert_eq!(mapped.status, 429);
    assert_eq!(mapped.code, "plan_usage_limit_exceeded");
}

#[test]
fn lost_plan_permit_is_a_retryable_client_visible_503() {
    let mapped = plan_permit_loss_error();

    assert_eq!(mapped.status, 503);
    assert_eq!(mapped.error_type, "server_error");
    assert_eq!(mapped.code, "plan_usage_concurrency_unavailable");
    assert_eq!(mapped.close_code, 1013);
    assert_eq!(mapped.close_reason, "plan_usage_concurrency_unavailable");
}

#[test]
fn other_failures_tell_that_the_limits_could_not_be_looked_at() {
    let unavailable = PlanUsageAdmissionError::Runtime(RuntimeSemaphoreError::Unavailable {
        gate: "plan_usage_concurrency".to_string(),
        message: "down".to_string(),
    });
    let mapped = map_plan_admission_error(&unavailable);
    assert_eq!((mapped.status, mapped.error_type), (503, "server_error"));
    assert_eq!(mapped.code, "plan_usage_policy_unavailable");
    assert_eq!(
        responses_websocket_plan_admission_close(&unavailable),
        (1013, "plan_usage_policy_unavailable")
    );
    let configured = PlanUsageAdmissionError::Runtime(RuntimeSemaphoreError::InvalidConfiguration(
        "no limit".to_string(),
    ));
    assert_eq!(map_plan_admission_error(&configured).status, 500);
    assert_eq!(
        responses_websocket_plan_admission_close(&configured),
        (1011, "plan_usage_policy_unavailable")
    );
    let client = PlanUsageAdmissionError::Gateway(GatewayError::Client {
        status: 422,
        message: "no".to_string(),
    });
    let mapped = map_plan_admission_error(&client);
    assert_eq!((mapped.status, mapped.error_type), (422, "invalid_request_error"));
    let internal = PlanUsageAdmissionError::Gateway(GatewayError::Internal("no".to_string()));
    let mapped = map_plan_admission_error(&internal);
    assert_eq!((mapped.status, mapped.error_type), (500, "server_error"));
    assert_eq!(mapped.close_code, 1011);
}

#[derive(Debug, Clone, Copy, PartialEq, Eq)]
enum WebSocketWriteError {
    TimedOut,
}

struct MutablePermitHealth(Arc<AtomicBool>);

impl AdmissionPermitHealth for MutablePermitHealth {
    fn is_healthy(&self) -> bool {
        self.0.load(Ordering::Acquire)
    }
}

fn run_send(
    permit: Option<&AdmissionPermit<MutablePermitHealth>>,
    mut queue: impl FnMut() -> Result<(), WebSocketWriteError>,
    mut flush: impl FnMut() -> Result<(), WebSocketWriteError>,
    mut record: impl FnMut(UpstreamRequestState),
) -> Result<(), ResponsesWebSocketUpstreamSendError<WebSocketWriteError>> {
    let mut send = UpstreamSend::new();
    let mut event = SendEvent::Begin {
        permit_healthy: responses_websocket_plan_permit_is_healthy(permit),
    };
    loop {
        event = match send.on_event(event) {
            SendAction::Queue => SendEvent::Queued(queue()),
            SendAction::RecordPossiblySentAndFlush => {
                record(send.state);
                SendEvent::Flushed(flush())
            }
            SendAction::RecordSent => {
                record(send.state);
                return Ok(());
            }
            SendAction::Fail(error) => return Err(error),
        };
    }
}

#[test]
fn successful_send_marks_attempt_before_returning_to_cancelling_supervisor() {
    let cancellation_requested = Arc::new(AtomicBool::new(false));
    let upstream_request_sent = Arc::new(AtomicBool::new(false));
    let requested_by_send = Arc::clone(&cancellation_requested);
    let state_by_handoff = Arc::clone(&upstream_request_sent);

    let result = run_send(
        None,
        move || {
            requested_by_send.store(true, Ordering::Release);
            Ok(())
        },
        || Ok(()),
        move |state| {
            if state == UpstreamRequestState::Sent {
                state_by_handoff.store(true, Ordering::Release);
            }
        },
    );

    assert_eq!(result, Ok(()));
    assert!(cancellation_requested.load(Ordering::Acquire));
    assert!(
        upstream_request_sent.load(Ordering::Acquire),
        "a successful provider write must transfer lifecycle ownership before an outer supervisor can cancel the send future"
    );
}

#[test]
fn unhealthy_plan_permit_rejects_before_polling_the_upstream_send() {
    let healthy = Arc::new(AtomicBool::new(false));
    let permit = AdmissionPermit::from_parts(None, Some(MutablePermitHealth(healthy)))
        .expect("test permit");
    let send_polled = Arc::new(AtomicBool::new(false));
    let send_polled_by_future = Arc::clone(&send_polled);

    let result = run_send(
        Some(&permit),
        move || {
            send_polled_by_future.store(true, Ordering::Release);
            Ok(())
        },
        || Ok(()),
        |_| {},
    );

    assert_eq!(result, Err(ResponsesWebSocketUpstreamSendError::PlanUsagePermitLost));
    assert!(!send_polled.load(Ordering::Acquire));
}

#[test]
fn plan_permit_loss_after_send_start_does_not_cancel_the_send() {
    let healthy = Arc::new(AtomicBool::new(true));
    let permit =
        AdmissionPermit::from_parts(None, Some(MutablePermitHealth(Arc::clone(&healthy))))
            .expect("test permit");
    let marked_possibly_sent = Arc::new(AtomicBool::new(false));
    let marked_possibly_sent_by_callback = Arc::clone(&marked_possibly_sent);
    let marked_sent = Arc::new(AtomicBool::new(false));
    let marked_sent_by_callback = Arc::clone(&marked_sent);

    let result = run_send(
        Some(&permit),
        || Ok(()),
        move || {
            healthy.store(false, Ordering::Release);
            Ok(())
        },
        move |state| match state {
            UpstreamRequestState::PossiblySent => {
                marked_possibly_sent_by_callback.store(true, Ordering::Release)
            }
            UpstreamRequestState::Sent => marked_sent_by_callback.store(true, Ordering::Release),
            UpstreamRequestState::NotStarted => {}
        },
    );

    assert_eq!(result, Ok(()));
    assert!(marked_possibly_sent.load(Ordering::Acquire));
    assert!(marked_sent.load(Ordering::Acquire));
}

#[test]
fn flush_failure_keeps_the_attempt_possibly_sent() {
    let observed = Arc::new(std::sync::Mutex::new(Vec::new()));
    let observed_by_callback = Arc::clone(&observed);

    let result = run_send(
        None,
        || Ok(()),
        || Err(WebSocketWriteError::TimedOut),
        move |state| observed_by_callback.lock().expect("states").push(state),
    );

    assert_eq!(
        result,
        Err(ResponsesWebSocketUpstreamSendError::Transport(WebSocketWriteError::TimedOut))
    );
    assert_eq!(*observed.lock().expect("states"), vec![UpstreamRequestState::PossiblySent]);
}

#[test]
fn a_message_that_was_not_queued_is_not_recorded() {
    let mut recorded = Vec::new();
    let result = run_send(
        None,
        || Err(WebSocketWriteError::TimedOut),
        || Ok(()),
        |state| recorded.push(state),
    );
    assert_eq!(
        result,
        Err(ResponsesWebSocketUpstreamSendError::Transport(WebSocketWriteError::TimedOut))
    );
    assert!(recorded.is_empty());
}

fn sample_decision() -> AiExecutionDecision {
    AiExecutionDecision {
        timeouts: None,
        provider_request_model: None,
        mapped_model: Some("provider-model".to_string()),
    }
}

fn decision_with(first_byte_ms: u64, total_ms: u64) -> AiExecutionDecision {
    let mut decision = sample_decision();
    decision.timeouts = Some(ExecutionTimeouts {
        first_byte_ms: Some(first_byte_ms),
        total_ms: Some(total_ms),
    });
    decision
}

#[test]
fn handshake_deadline_defaults_to_30s_without_configured_timeouts() {
    let decision = sample_decision();
    let deadline = resolve_upstream_handshake_deadline(&decision);
    assert_eq!(deadline, DEFAULT_UPSTREAM_HANDSHAKE_DEADLINE_MS);
    assert_eq!(deadline, 30_000);
}

#[test]
fn handshake_deadline_uses_first_byte_ms_when_shorter_than_default() {
    assert_eq!(resolve_upstream_handshake_deadline(&decision_with(10_000, 60_000)), 10_000);
}

#[test]
fn handshake_deadline_uses_total_ms_when_shorter_than_first_byte_and_default() {
    assert_eq!(resolve_upstream_handshake_deadline(&decision_with(25_000, 8_000)), 8_000);
}

#[test]
fn handshake_deadline_ignores_zero_values() {
    assert_eq!(
        resolve_upstream_handshake_deadline(&decision_with(0, 0)),
        DEFAULT_UPSTREAM_HANDSHAKE_DEADLINE_MS
    );
}

#[test]
fn handshake_deadline_does_not_exceed_default_even_with_larger_configured_values() {
    assert_eq!(
        resolve_upstream_handshake_deadline(&decision_with(120_000, 600_000)),
        DEFAULT_UPSTREAM_HANDSHAKE_DEADLINE_MS
    );
}

fn upstream_errors() -> UpstreamErrors {
    UpstreamErrors {
        upstream_url_missing: "url_missing",
        upstream_url_invalid: "url_invalid",
        headers_invalid: "headers_invalid",
    }
}

fn bind(
    decision: &AiExecutionDecision,
    model: Option<&str>,
    event: BindEvent<WebSocketWriteError>,
) -> BindAction {
    bind_responses_upstream_step(event, &upstream_errors(), decision, model)
}

fn bind_failure(event: BindEvent<WebSocketWriteError>) -> ResponsesWebSocketUpstreamBindError {
    match bind(&sample_decision(), Some("test-model"), event) {
        BindAction::Fail(error) => error,
        other => panic!("expected a failure, got {:?}", other),
    }
}

#[test]
fn bind_responses_upstream_times_out_against_stalled_server() {
    let mut decision = decision_with(100, 200);
    decision.provider_request_model = Some("test-model".to_string());
    assert_eq!(resolve_upstream_handshake_deadline(&decision), 100);
    assert!(matches!(
        bind(&decision, Some("test-model"), BindEvent::Identified(Ok(()))),
        BindAction::Connect
    ));
    let error = match bind(&decision, Some("test-model"), BindEvent::TimedOut) {
        BindAction::Fail(error) => error,
        other => panic!("bind should fail with timeout, got {:?}", other),
    };
    assert_eq!(
        error,
        ResponsesWebSocketUpstreamBindError::Transport(
            "responses_websocket_upstream_handshake_timeout"
        )
    );
}

#[test]
fn a_connection_is_bound_step_by_step() {
    let mut decision = sample_decision();
    let model = Some("  client-model ");
    assert!(matches!(
        bind(&decision, model, BindEvent::Identified(Ok(()))),
        BindAction::Connect
    ));
    assert!(matches!(
        bind(&decision, model, BindEvent::Connected(Ok(()))),
        BindAction::PlanFirstEvent
    ));
    assert!(matches!(
        bind(&decision, model, BindEvent::EventPlanned(Ok(()))),
        BindAction::SendFirstEvent
    ));
    for (requested, expected) in [(None, "provider-model"), (Some(" own "), "own")] {
        decision.provider_request_model = requested.map(str::to_string);
        match bind(&decision, model, BindEvent::EventSent(Ok(()))) {
            BindAction::Bound { client_model, provider_model, next_turn_index } => {
                assert_eq!(client_model, "client-model");
                assert_eq!(provider_model, expected);
                assert_eq!(next_turn_index, 2);
            }
            other => panic!("expected a bound connection, got {:?}", other),
        }
    }
}

#[test]
fn binding_fails_with_the_name_of_what_went_wrong() {
    for (error, name) in [
        (UpstreamBindingIdentityError::MissingUpstreamUrl, "url_missing"),
        (UpstreamBindingIdentityError::InvalidUpstreamUrl, "url_invalid"),
        (UpstreamBindingIdentityError::InvalidHandshakeHeaders, "headers_invalid"),
    ] {
        assert_eq!(bind_failure(BindEvent::Identified(Err(error))), ResponsesWebSocketUpstreamBindError::Transport(name));
    }
    assert_eq!(bind_failure(BindEvent::Connected(Err("refused"))), ResponsesWebSocketUpstreamBindError::Transport("refused"));
    assert_eq!(bind_failure(BindEvent::EventPlanned(Err("shape"))), ResponsesWebSocketUpstreamBindError::Transport("shape"));
    assert_eq!(
        bind_failure(BindEvent::EventSent(Err(
            ResponsesWebSocketUpstreamSendError::PlanUsagePermitLost
        ))),
        ResponsesWebSocketUpstreamBindError::PlanUsagePermitLost
    );
    assert_eq!(
        bind_failure(BindEvent::EventSent(Err(ResponsesWebSocketUpstreamSendError::Transport(
            WebSocketWriteError::TimedOut
        )))),
        ResponsesWebSocketUpstreamBindError::Transport("responses_websocket_initial_send_failed")
    );
    assert!(matches!(
        bind(&sample_decision(), Some(" "), BindEvent::EventSent(Ok(()))),
        BindAction::Fail(ResponsesWebSocketUpstreamBindError::Transport("responses_websocket_model_missing"))
    ));
    let mut unmapped = sample_decision();
    unmapped.mapped_model = Some(" ".to_string());
    assert!(matches!(
        bind(&unmapped, Some("m"), BindEvent::EventSent(Ok(()))),
        BindAction::Fail(ResponsesWebSocketUpstreamBindError::Transport("responses_websocket_mapped_model_missing"))
    ));
}

#[test]
fn a_bound_connection_is_used_again_only_for_the_same() {
    assert!(decision_reuses_bound_upstream(true, Some(true)));
    assert!(!decision_reuses_bound_upstream(false, Some(true)));
    assert!(!decision_reuses_bound_upstream(true, Some(false)));
    assert!(!decision_reuses_bound_upstream(true, None));
    assert_eq!(
        decision_bound_upstream_change_fields(false, Some(vec!["url".to_string()])),
        vec!["upstream_socket".to_string()]
    );
    assert_eq!(
        decision_bound_upstream_change_fields(true, None),
        vec!["binding_identity_invalid".to_string()]
    );
    assert_eq!(
        decision_bound_upstream_change_fields(true, Some(vec!["url".to_string()])),
        vec!["url".to_string()]
    );
}
