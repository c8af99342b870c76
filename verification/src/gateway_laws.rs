//! What clients, providers and maintenance see: answers, deadlines, permits and cleanups.

use crate::admission;
use crate::admission::{BodyEvent, BodyStep, HoldEvent, HoldStep};
use crate::plan_windows::PlanUsageAdmissionError;
use crate::retention;
use crate::retention::Retained;
use crate::text;
use crate::text_laws;
use crate::token_map;
use crate::token_map::Entries;
use crate::usage_cleanup;
use crate::usage_cleanup::{
    CleanupGate, LedgerCleanup, ManualUsageCleanupMode, ManualUsageCleanupOptions,
    ManualUsageCleanupPreview, Moment, UsageCleanupCounts, UsageCleanupExecutionMode,
    UsageCleanupWindow,
};
use crate::websocket_admission;
use crate::websocket_admission::ResponsesWebSocketPlanAdmissionError;
use crate::websocket_upstream;
use crate::websocket_upstream::{
    AiExecutionDecision, BindAction, BindEvent, ResponsesWebSocketUpstreamBindError,
    ResponsesWebSocketUpstreamSendError, SendAction, SendEvent, UpstreamBindingIdentityError,
    UpstreamErrors, UpstreamSend,
};
use vstd::prelude::*;
use vstd::string::*;

verus! {

/// A handshake may take half a minute, or the shortest of the timeouts that are not zero if that is
/// shorter: no longer than any of them, and as long as one of them.
pub proof fn a_handshake_has_the_shortest_deadline(decision: AiExecutionDecision, r: u64)
    requires
        call_ensures(websocket_upstream::resolve_upstream_handshake_deadline, (&decision,), r),
    ensures
        0 < r <= 30_000,
        decision.timeouts is None ==> r == 30_000,
        decision.timeouts is Some ==> {
            let first = decision.timeouts->0.first_byte_ms;
            let total = decision.timeouts->0.total_ms;
            &&& first is Some && first->0 > 0 ==> r <= first->0
            &&& total is Some && total->0 > 0 ==> r <= total->0
            &&& r == 30_000 || first == Some(r) || total == Some(r)
        },
{
}

/// The name says something.
pub open spec fn is_name(name: Option<Seq<char>>) -> bool {
    name is Some && exists|i: int|
        0 <= i < name->0.len() && !text::is_white_space(#[trigger] name->0[i])
}

/// A connection whose first event was sent is bound exactly if the client names a model and the
/// request to the provider, or else the mapping, names one: to the client's model, and to the
/// provider's of the request before that of the mapping, without the white space around them; the
/// next turn is the second.
pub proof fn a_connection_is_bound_to_both_models<E>(
    errors: UpstreamErrors,
    decision: AiExecutionDecision,
    client: Option<&str>,
    r: BindAction,
)
    requires
        call_ensures(
            websocket_upstream::bind_responses_upstream_step::<E>,
            (BindEvent::<E>::EventSent(Ok(())), &errors, &decision, client),
            r,
        ),
    ensures
        ({
            let asked = text::opt_string(decision.provider_request_model);
            let mapped = text::opt_string(decision.mapped_model);
            &&& r is Bound <==> is_name(text::opt_view(client)) && (is_name(asked) || is_name(
                mapped,
            ))
            &&& !(r is Bound) ==> r is Fail && r->Fail_0
                == ResponsesWebSocketUpstreamBindError::Transport(
                if is_name(text::opt_view(client)) {
                    "responses_websocket_mapped_model_missing"
                } else {
                    "responses_websocket_model_missing"
                },
            )
            &&& r is Bound ==> {
                &&& r->client_model@ == text::trimmed(client->0@)
                &&& r->provider_model@ == text::trimmed(
                    if is_name(asked) {
                        asked->0
                    } else {
                        mapped->0
                    },
                )
                &&& r->next_turn_index == 2
            }
        }),
{
    if client is Some {
        text_laws::only_blank_texts_are_trimmed_away(client->0@);
    }
    if decision.provider_request_model is Some {
        text_laws::only_blank_texts_are_trimmed_away(decision.provider_request_model->0@);
    }
    if decision.mapped_model is Some {
        text_laws::only_blank_texts_are_trimmed_away(decision.mapped_model->0@);
    }
    let step = websocket_upstream::bound_step(decision, text::opt_view(client));
    assert(r@ == step);
}

/// Binding goes on step by step, each after the one before has succeeded, and every failure ends it:
/// with its own name, a lost permit as one, a failed send and a deadline that has passed as such.
pub proof fn binding_goes_step_by_step<E>(
    event: BindEvent<E>,
    errors: UpstreamErrors,
    decision: AiExecutionDecision,
    client: Option<&str>,
    r: BindAction,
)
    requires
        call_ensures(
            websocket_upstream::bind_responses_upstream_step::<E>,
            (event, &errors, &decision, client),
            r,
        ),
    ensures
        r is Connect <==> event is Identified && event->Identified_0 is Ok,
        r is PlanFirstEvent <==> event is Connected && event->Connected_0 is Ok,
        r is SendFirstEvent <==> event is EventPlanned && event->EventPlanned_0 is Ok,
        r is Bound ==> event is EventSent && event->EventSent_0 is Ok,
        (r is Fail && r->Fail_0 is PlanUsagePermitLost) <==> event == BindEvent::<E>::EventSent(
            Err(ResponsesWebSocketUpstreamSendError::PlanUsagePermitLost),
        ),
        event matches BindEvent::Connected(Err(e)) ==> r is Fail && r->Fail_0
            == ResponsesWebSocketUpstreamBindError::Transport(e),
        event matches BindEvent::EventPlanned(Err(e)) ==> r is Fail && r->Fail_0
            == ResponsesWebSocketUpstreamBindError::Transport(e),
        event matches BindEvent::Identified(Err(e)) ==> r is Fail && r->Fail_0
            == ResponsesWebSocketUpstreamBindError::Transport(
            match e {
                UpstreamBindingIdentityError::MissingUpstreamUrl => errors.upstream_url_missing,
                UpstreamBindingIdentityError::InvalidUpstreamUrl => errors.upstream_url_invalid,
                UpstreamBindingIdentityError::InvalidHandshakeHeaders => errors.headers_invalid,
            },
        ),
        event matches BindEvent::EventSent(
            Err(ResponsesWebSocketUpstreamSendError::Transport(_)),
        ) ==> r is Fail && r->Fail_0 == ResponsesWebSocketUpstreamBindError::Transport(
            "responses_websocket_initial_send_failed",
        ),
        event is TimedOut ==> r is Fail && r->Fail_0
            == ResponsesWebSocketUpstreamBindError::Transport(
            "responses_websocket_upstream_handshake_timeout",
        ),
{
    let step = websocket_upstream::step_after(event, errors, decision, text::opt_view(client));
    assert(r@ == step);
}

/// A message is queued exactly while the permit stands, flushed exactly once it was queued, and sent
/// exactly once it was flushed; what goes wrong on the wire ends it with what went wrong.
pub proof fn a_message_is_queued_then_flushed<E>(send: UpstreamSend, event: SendEvent<E>)
    ensures
        ({
            let action = send.action_after(event);
            &&& action is Queue <==> event == (SendEvent::<E>::Begin { permit_healthy: true })
            &&& action is RecordPossiblySentAndFlush <==> event is Queued && event->Queued_0 is Ok
            &&& action is RecordSent <==> event is Flushed && event->Flushed_0 is Ok
            &&& event == (SendEvent::<E>::Begin { permit_healthy: false }) ==> action
                == SendAction::<E>::Fail(ResponsesWebSocketUpstreamSendError::PlanUsagePermitLost)
            &&& event matches SendEvent::Queued(Err(e)) ==> action == SendAction::<E>::Fail(
                ResponsesWebSocketUpstreamSendError::Transport(e),
            )
            &&& event matches SendEvent::Flushed(Err(e)) ==> action == SendAction::<E>::Fail(
                ResponsesWebSocketUpstreamSendError::Transport(e),
            )
            &&& action is Queue ==> send.after(event).state == send.state
            &&& action is RecordPossiblySentAndFlush ==> send.after(event).state is PossiblySent
            &&& action is RecordSent ==> send.after(event).state is Sent
            &&& action is Fail ==> send.after(event).state == send.state && send.after(event).stage
                is Done
        }),
{
}

/// A bound connection serves another request exactly if it is open and the request would be bound
/// to the same; else what stands in the way is named: the connection, what has changed, or that it
/// cannot be told.
pub proof fn only_an_open_connection_to_the_same_is_reused(
    open: bool,
    matching: Option<bool>,
    reuses: bool,
    changed: Option<Vec<String>>,
    fields: Vec<String>,
)
    requires
        call_ensures(
            websocket_upstream::decision_reuses_bound_upstream,
            (open, matching),
            reuses,
        ),
        call_ensures(
            websocket_upstream::decision_bound_upstream_change_fields,
            (open, changed),
            fields,
        ),
    ensures
        reuses <==> open && matching is Some && matching->0,
        open && changed is Some ==> fields == changed->0,
        !open ==> fields@.len() == 1 && fields@[0]@ == "upstream_socket"@,
        open && changed is None ==> fields@.len() == 1 && fields@[0]@
            == "binding_identity_invalid"@,
{
}

/// A client that ran into a limit, by a window or by the permits, is told 429; one whose permits could
/// not be asked 503; one whose own request was at fault the status of that; and every other 500.
pub proof fn a_client_is_told_why(
    error: PlanUsageAdmissionError,
    r: ResponsesWebSocketPlanAdmissionError,
)
    requires
        call_ensures(websocket_admission::map_plan_admission_error, (&error,), r),
    ensures
        ({
            let limited = error is Rejected || (error is Runtime && error->Runtime_0 is Saturated);
            let down = error is Runtime && error->Runtime_0 is Unavailable;
            let own = error is Gateway && error->Gateway_0 is Client;
            &&& limited ==> r.status == 429 && r.error_type == "rate_limit_error" && r.code
                == "plan_usage_limit_exceeded" && r.close_code == 1013 && r.close_reason
                == "plan_usage_limit_exceeded"
            &&& down ==> r.status == 503 && r.error_type == "server_error" && r.close_code == 1013
            &&& own ==> r.status == error->Gateway_0->status && r.error_type
                == "invalid_request_error" && r.close_code == 1011
            &&& !limited && !down && !own ==> r.status == 500 && r.error_type == "server_error"
                && r.close_code == 1011
            &&& !limited ==> r.code == "plan_usage_policy_unavailable" && r.close_reason
                == "plan_usage_policy_unavailable"
        }),
{
}

/// Work under a permit goes on exactly while it is not done and the permit stands; a part of a
/// response is sent exactly if it is there and the permit stands, and a response ends exactly if it
/// is at its end or the permit is lost.
pub proof fn a_permit_is_held_to_the_end(
    event: HoldEvent,
    part: BodyEvent,
    healthy: bool,
    held: HoldStep,
    sent: BodyStep,
)
    requires
        call_ensures(admission::hold_step, (event, healthy), held),
        call_ensures(admission::body_step, (part, healthy), sent),
    ensures
        held is Stop <==> event is Finished || !healthy,
        sent is Send <==> part is Item && healthy,
        sent is Stop <==> part is End || !healthy,
        sent is Wait <==> (part is Resume || part is Tick) && healthy,
{
}

/// A cleanup goes up to what the policy says, to what an age of its own says, or to this very moment,
/// for every kind of record alike; it clears bodies alone exactly in the last case.
pub proof fn a_cleanup_goes_up_to_what_its_mode_says(
    now: Moment,
    mode: ManualUsageCleanupMode,
    policy: UsageCleanupWindow,
    other: UsageCleanupWindow,
    r: UsageCleanupWindow,
    way: UsageCleanupExecutionMode,
)
    requires
        call_ensures(
            usage_cleanup::usage_cleanup_window_for_mode,
            (now, mode, policy, other),
            r,
        ),
        call_ensures(usage_cleanup::cleanup_execution_mode, (mode,), way),
    ensures
        mode is Policy ==> r == policy,
        mode is OlderThanDays ==> r == other,
        mode is BeforeNow ==> r.detail_cutoff == now && r.compressed_cutoff == now
            && r.header_cutoff == now && r.log_cutoff == now,
        way is BeforeNowBodyFields <==> mode is BeforeNow,
{
}

/// A preview says up to when each kind of record is cleaned and how many of it there are, and what was
/// asked for.
pub proof fn a_preview_says_what_would_be_done<T>(
    window: UsageCleanupWindow,
    options: ManualUsageCleanupOptions<T>,
    counts: UsageCleanupCounts,
    r: ManualUsageCleanupPreview<T>,
)
    requires
        call_ensures(
            usage_cleanup::preview_manual_usage_cleanup::<T>,
            (window, options, counts),
            r,
        ),
    ensures
        r.detail_cutoff == window.detail_cutoff,
        r.compressed_cutoff == window.compressed_cutoff,
        r.header_cutoff == window.header_cutoff,
        r.log_cutoff == window.log_cutoff,
        r.mode == options.mode,
        r.targets == options.targets,
        r.requested_older_than_days == options.requested_older_than_days,
        r.detail_count == counts.detail,
        r.compressed_count == counts.compressed,
        r.header_count == counts.header,
        r.log_count == counts.log,
{
}

/// A cleanup runs where there is a writer, and automatically only where that is switched on, unless it
/// has an age of its own.
pub proof fn a_cleanup_runs_where_it_may(
    writer: bool,
    automatic: bool,
    own_age: bool,
    r: CleanupGate,
)
    requires
        call_ensures(usage_cleanup::usage_cleanup_gate, (writer, automatic, own_age), r),
    ensures
        r is Skip <==> !writer,
        r is AskAutoCleanup <==> writer && automatic && !own_age,
{
}

/// A cleanup of the ledgers goes on with the ledger in turn exactly while a round takes out as many
/// as it may and fewer than thirty-two rounds have passed; then the admissions follow the
/// reservations, and then it is done. What a round takes out is added to the total of its ledger,
/// and to no other.
pub proof fn a_cleanup_drains_one_ledger_after_the_other(cleanup: LedgerCleanup, deleted: usize)
    requires
        cleanup.wf(),
        !(cleanup.action is Done),
    ensures
        ({
            let after = cleanup.after_round(deleted);
            let goes_on = deleted >= cleanup.batch_size && cleanup.rounds + 1 < 32;
            &&& after.batch_size == cleanup.batch_size
            &&& goes_on ==> after.action == cleanup.action && after.rounds == cleanup.rounds + 1
            &&& !goes_on ==> after.rounds == 0
            &&& !goes_on && cleanup.action is CleanCostReservations ==> after.action
                is CleanRequestAdmissions
            &&& !goes_on && cleanup.action is CleanRequestAdmissions ==> after.action is Done
            &&& cleanup.action is CleanCostReservations && cleanup.cost_reservations_deleted
                + deleted <= usize::MAX ==> after.cost_reservations_deleted
                == cleanup.cost_reservations_deleted + deleted
            &&& cleanup.action is CleanCostReservations && cleanup.cost_reservations_deleted
                + deleted > usize::MAX ==> after.cost_reservations_deleted == usize::MAX
            &&& cleanup.action is CleanRequestAdmissions && cleanup.request_admissions_deleted
                + deleted > usize::MAX ==> after.request_admissions_deleted == usize::MAX
            &&& cleanup.action is CleanRequestAdmissions && cleanup.request_admissions_deleted
                + deleted <= usize::MAX ==> after.request_admissions_deleted
                == cleanup.request_admissions_deleted + deleted
            &&& cleanup.action is CleanCostReservations ==> after.request_admissions_deleted
                == cleanup.request_admissions_deleted
            &&& cleanup.action is CleanRequestAdmissions ==> after.cost_reservations_deleted
                == cleanup.cost_reservations_deleted
        }),
{
}

/// A sweep takes the first of what has expired, in the order of the keys: where it leaves something
/// that has expired, it has taken as much as it may, and everything that has expired before it.
pub proof fn a_sweep_takes_the_first_that_have_expired<V: Retained>(
    s: Entries<V>,
    now: u64,
    limit: nat,
    i: int,
)
    requires
        token_map::in_key_order(s),
        0 <= i < s.len(),
        s[i].1.kept_until() <= now,
    ensures
        token_map::lookup(retention::swept(s, now, limit), s[i].0) is None <==> retention::expired(
            s.take(i),
            now,
        ) < limit,
    decreases s.len(),
{
    let rest = s.drop_first();
    let key = s[i].0;
    token_map::lemma_rest_in_key_order(s);
    if i > 0 {
        let head = s.take(i);
        assert(head.drop_first() =~= rest.take(i - 1));
        assert(rest[i - 1] == s[i]);
        assert(text::key_before(s[0].0, s[i].0));
        text::lemma_key_before_strict(key, key, key);
        if limit > 0 {
            if s[0].1.kept_until() <= now {
                a_sweep_takes_the_first_that_have_expired(rest, now, (limit - 1) as nat, i - 1);
            } else {
                a_sweep_takes_the_first_that_have_expired(rest, now, limit, i - 1);
                assert(retention::swept(s, now, limit).drop_first() =~= retention::swept(
                    rest,
                    now,
                    limit,
                ));
            }
        } else {
            token_map::lemma_at_position(s, key, s[i].1, i);
        }
    } else {
        assert(s.take(0).len() == 0);
        if limit > 0 {
            token_map::a_key_occurs_once(s, key);
            retention::a_sweep_keeps_what_has_not_expired(rest, now, (limit - 1) as nat, key);
        }
    }
}

} // verus!
