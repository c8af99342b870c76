//! What a WebSocket client is told when its plan does not admit a response.

use crate::admission::{AdmissionPermit, AdmissionPermitHealth};
use crate::error::{GatewayError, RuntimeSemaphoreError};
use crate::plan_windows::PlanUsageAdmissionError;
use vstd::prelude::*;

verus! {

/// The close code of a connection that may be tried again.
pub const CLOSE_TRY_AGAIN: u16 = 1013;

/// The close code of an internal error.
pub const CLOSE_INTERNAL_ERROR: u16 = 1011;

/// What a client is told.
#[derive(Debug, Clone, Copy, PartialEq, Eq)]
pub struct ResponsesWebSocketPlanAdmissionError {
    pub status: u16,
    pub error_type: &'static str,
    pub code: &'static str,
    pub message: &'static str,
    pub close_code: u16,
    pub close_reason: &'static str,
}

/// A limit of the plan is reached.
pub open spec fn limit_exceeded() -> ResponsesWebSocketPlanAdmissionError {
    ResponsesWebSocketPlanAdmissionError {
        status: 429,
        error_type: "rate_limit_error",
        code: "plan_usage_limit_exceeded",
        message: "Subscription plan usage limit exceeded; retry later",
        close_code: CLOSE_TRY_AGAIN,
        close_reason: "plan_usage_limit_exceeded",
    }
}

/// The permit was lost while the response was under way.
pub open spec fn permit_lost() -> ResponsesWebSocketPlanAdmissionError {
    ResponsesWebSocketPlanAdmissionError {
        status: 503,
        error_type: "server_error",
        code: "plan_usage_concurrency_unavailable",
        message: "Subscription plan concurrency admission was lost; retry this response",
        close_code: CLOSE_TRY_AGAIN,
        close_reason: "plan_usage_concurrency_unavailable",
    }
}

/// The limits of the plan could not be looked at.
pub open spec fn policy_unavailable(
    status: u16,
    error_type: &'static str,
    close_code: u16,
) -> ResponsesWebSocketPlanAdmissionError {
    ResponsesWebSocketPlanAdmissionError {
        status,
        error_type,
        code: "plan_usage_policy_unavailable",
        message: "Gateway could not evaluate the subscription plan limit",
        close_code,
        close_reason: "plan_usage_policy_unavailable",
    }
}

/// What a client is told when its response was not admitted.
pub open spec fn told(error: PlanUsageAdmissionError) -> ResponsesWebSocketPlanAdmissionError {
    match error {
        PlanUsageAdmissionError::Rejected(_) => limit_exceeded(),
        PlanUsageAdmissionError::Runtime(RuntimeSemaphoreError::Saturated { .. }) =>
            limit_exceeded(),
        PlanUsageAdmissionError::Runtime(RuntimeSemaphoreError::Unavailable { .. }) =>
            policy_unavailable(503, "server_error", CLOSE_TRY_AGAIN),
        PlanUsageAdmissionError::Runtime(RuntimeSemaphoreError::InvalidConfiguration(_)) =>
            policy_unavailable(500, "server_error", CLOSE_INTERNAL_ERROR),
        PlanUsageAdmissionError::Gateway(GatewayError::Client { status, .. }) =>
            policy_unavailable(status, "invalid_request_error", CLOSE_INTERNAL_ERROR),
        PlanUsageAdmissionError::Gateway(_) => policy_unavailable(
            500,
            "server_error",
            CLOSE_INTERNAL_ERROR,
        ),
    }
}

/// What a client is told when the permit was lost while its response was under way.
pub fn plan_permit_loss_error() -> (r: ResponsesWebSocketPlanAdmissionError)
    ensures
        r == permit_lost(),
{
    ResponsesWebSocketPlanAdmissionError {
        status: 503,
        error_type: "server_error",
        code: "plan_usage_concurrency_unavailable",
        message: "Subscription plan concurrency admission was lost; retry this response",
        close_code: CLOSE_TRY_AGAIN,
        close_reason: "plan_usage_concurrency_unavailable",
    }
}

/// What a client is told when a limit of its plan is reached.
pub fn plan_limit_exceeded_error() -> (r: ResponsesWebSocketPlanAdmissionError)
    ensures
        r == limit_exceeded(),
{
    ResponsesWebSocketPlanAdmissionError {
        status: 429,
        error_type: "rate_limit_error",
        code: "plan_usage_limit_exceeded",
        message: "Subscription plan usage limit exceeded; retry later",
        close_code: CLOSE_TRY_AGAIN,
        close_reason: "plan_usage_limit_exceeded",
    }
}

fn plan_unavailable_error(status: u16, error_type: &'static str, close_code: u16) -> (r:
    ResponsesWebSocketPlanAdmissionError)
    ensures
        r == policy_unavailable(status, error_type, close_code),
{
    ResponsesWebSocketPlanAdmissionError {
        status,
        error_type,
        code: "plan_usage_policy_unavailable",
        message: "Gateway could not evaluate the subscription plan limit",
        close_code,
        close_reason: "plan_usage_policy_unavailable",
    }
}

/// What a client is told when its response was not admitted.
pub fn map_plan_admission_error(error: &PlanUsageAdmissionError) -> (r:
    ResponsesWebSocketPlanAdmissionError)
    ensures
        r == told(*error),
{
    match error {
        PlanUsageAdmissionError::Rejected(_) => plan_limit_exceeded_error(),
        PlanUsageAdmissionError::Runtime(e) => match e {
            RuntimeSemaphoreError::Saturated { .. } => plan_limit_exceeded_error(),
            RuntimeSemaphoreError::Unavailable { .. } => plan_unavailable_error(
                503,
                "server_error",
                CLOSE_TRY_AGAIN,
            ),
            RuntimeSemaphoreError::InvalidConfiguration(_) => plan_unavailable_error(
                500,
                "server_error",
                CLOSE_INTERNAL_ERROR,
            ),
        },
        PlanUsageAdmissionError::Gateway(e) => match e {
            GatewayError::Client { status, .. } => plan_unavailable_error(
                *status,
                "invalid_request_error",
                CLOSE_INTERNAL_ERROR,
            ),
            _ => plan_unavailable_error(500, "server_error", CLOSE_INTERNAL_ERROR),
        },
    }
}

/// How the connection of a client is closed when its response was not admitted.
pub fn responses_websocket_plan_admission_close(error: &PlanUsageAdmissionError) -> (r: (
    u16,
    &'static str,
))
    ensures
        r == (told(*error).close_code, told(*error).close_reason),
{
    let mapped = map_plan_admission_error(error);
    (mapped.close_code, mapped.close_reason)
}

/// Whether the permit of a response, if it has one, still stands.
pub fn responses_websocket_plan_permit_is_healthy<D: AdmissionPermitHealth>(
    permit: Option<&AdmissionPermit<D>>,
) -> (r: bool)
    ensures
        permit is None ==> r,
        permit matches Some(permit) ==> permit.stands(r),
{
    match permit {
        Some(permit) => permit.is_healthy(),
        None => true,
    }
}

/// A client that ran into a limit, or whose permit was lost, may try again; one whose request was at
/// fault or that hit an internal error is not told so.
pub proof fn only_limits_and_outages_may_be_tried_again(error: PlanUsageAdmissionError)
    ensures
        told(error).close_code == CLOSE_TRY_AGAIN <==> (error is Rejected || (error is Runtime
            && !(error->Runtime_0 is InvalidConfiguration))),
        permit_lost().close_code == CLOSE_TRY_AGAIN,
{
}

} // verus!
