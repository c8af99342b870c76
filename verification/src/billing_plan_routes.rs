//! Requests of administrators on billing plans: what each asks for, and what it is answered.

use crate::billing_plans;
use crate::billing_plans::{BillingPlanRequest, BillingPlanWriteInput};
use crate::path;
use crate::text;
use vstd::prelude::*;
use vstd::string::*;

verus! {

/// The method of a request.
#[derive(Debug, Clone, Copy, PartialEq, Eq, Structural)]
pub enum HttpMethod {
    Get,
    Post,
    Put,
    Patch,
    Delete,
    Other,
}

/// What a request asks for.
#[derive(Debug)]
pub enum PlansRoute {
    NotHandled,
    List,
    Create,
    Update { plan_id: String },
    SetEnabled { plan_id: String },
    Delete { plan_id: String },
}

/// What a request asks for, by its texts.
pub enum Route {
    NotHandled,
    List,
    Create,
    Update { plan_id: Seq<char> },
    SetEnabled { plan_id: Seq<char> },
    Delete { plan_id: Seq<char> },
}

impl View for PlansRoute {
    type V = Route;

    open spec fn view(&self) -> Route {
        match *self {
            PlansRoute::NotHandled => Route::NotHandled,
            PlansRoute::List => Route::List,
            PlansRoute::Create => Route::Create,
            PlansRoute::Update { plan_id } => Route::Update { plan_id: plan_id@ },
            PlansRoute::SetEnabled { plan_id } => Route::SetEnabled { plan_id: plan_id@ },
            PlansRoute::Delete { plan_id } => Route::Delete { plan_id: plan_id@ },
        }
    }
}

/// The path of all plans.
pub open spec fn is_plans_path(request_path: Seq<char>) -> bool {
    path::unslashed(request_path) == "/api/admin/billing/plans"@
}

/// What a request asks for.
pub open spec fn route_of(method: HttpMethod, request_path: Seq<char>) -> Route {
    let plan = billing_plans::plan_id_of(path::unslashed(request_path), None);
    let status = billing_plans::plan_id_of(path::unslashed(request_path), Some("/status"@));
    match method {
        HttpMethod::Get => if is_plans_path(request_path) {
            Route::List
        } else {
            Route::NotHandled
        },
        HttpMethod::Post => if is_plans_path(request_path) {
            Route::Create
        } else {
            Route::NotHandled
        },
        HttpMethod::Put => match plan {
            Some(plan_id) => Route::Update { plan_id },
            None => Route::NotHandled,
        },
        HttpMethod::Patch => match status {
            Some(plan_id) => Route::SetEnabled { plan_id },
            None => Route::NotHandled,
        },
        HttpMethod::Delete => match plan {
            Some(plan_id) => Route::Delete { plan_id },
            None => Route::NotHandled,
        },
        HttpMethod::Other => Route::NotHandled,
    }
}

/// What a request asks for.
pub fn route_admin_billing_plans(method: HttpMethod, request_path: &str) -> (r: PlansRoute)
    ensures
        r@ == route_of(method, request_path@),
{
    let trimmed = path::without_trailing_slashes(request_path);
    match method {
        HttpMethod::Get => {
            if text::same(trimmed, "/api/admin/billing/plans") {
                PlansRoute::List
            } else {
                PlansRoute::NotHandled
            }
        },
        HttpMethod::Post => {
            if text::same(trimmed, "/api/admin/billing/plans") {
                PlansRoute::Create
            } else {
                PlansRoute::NotHandled
            }
        },
        HttpMethod::Put => match billing_plans::plan_id_from_path(trimmed, None) {
            Some(plan_id) => PlansRoute::Update { plan_id },
            None => PlansRoute::NotHandled,
        },
        HttpMethod::Patch => match billing_plans::plan_id_from_path(trimmed, Some("/status")) {
            Some(plan_id) => PlansRoute::SetEnabled { plan_id },
            None => PlansRoute::NotHandled,
        },
        HttpMethod::Delete => match billing_plans::plan_id_from_path(trimmed, None) {
            Some(plan_id) => PlansRoute::Delete { plan_id },
            None => PlansRoute::NotHandled,
        },
        HttpMethod::Other => PlansRoute::NotHandled,
    }
}

/// The body of a request. `T` is what it says.
#[derive(Debug)]
pub enum RequestBody<T> {
    Missing,
    Malformed,
    Read(T),
}

/// What a request is answered.
#[derive(Debug)]
pub enum PlansReply {
    /// The plan as it now is.
    Plan,
    NoContent,
    BadRequest(String),
    NotFound(String),
    Conflict(String),
    DataUnavailable,
}

/// What a request is answered, by its texts.
pub enum Reply {
    Plan,
    NoContent,
    BadRequest(Seq<char>),
    NotFound(Seq<char>),
    Conflict(Seq<char>),
    DataUnavailable,
}

impl View for PlansReply {
    type V = Reply;

    open spec fn view(&self) -> Reply {
        match *self {
            PlansReply::Plan => Reply::Plan,
            PlansReply::NoContent => Reply::NoContent,
            PlansReply::BadRequest(detail) => Reply::BadRequest(detail@),
            PlansReply::NotFound(detail) => Reply::NotFound(detail@),
            PlansReply::Conflict(detail) => Reply::Conflict(detail@),
            PlansReply::DataUnavailable => Reply::DataUnavailable,
        }
    }
}

/// Reads the body of a request that creates or changes a plan: the plan as it is to be written, or
/// the answer to a body that is missing, malformed or not a valid plan.
pub fn read_plan_body(body: RequestBody<BillingPlanRequest>) -> (r: Result<
    BillingPlanWriteInput,
    PlansReply,
>)
    ensures
        match body {
            RequestBody::Missing => r is Err && r->Err_0@ == Reply::BadRequest("缺少请求体"@),
            RequestBody::Malformed => r is Err && r->Err_0@ == Reply::BadRequest("输入验证失败"@),
            RequestBody::Read(plan) => match billing_plans::plan_of(plan) {
                Ok(texts) => r is Ok && billing_plans::is_plan(r->Ok_0, plan, texts),
                Err(message) => r is Err && r->Err_0@ == Reply::BadRequest(message),
            },
        },
{
    match body {
        RequestBody::Missing => Err(PlansReply::BadRequest("缺少请求体".to_string())),
        RequestBody::Malformed => Err(PlansReply::BadRequest("输入验证失败".to_string())),
        RequestBody::Read(plan) => match billing_plans::normalize_plan_input(plan) {
            Ok(input) => Ok(input),
            Err(detail) => Err(PlansReply::BadRequest(detail)),
        },
    }
}

/// Reads the body of a request that puts a plan on sale or takes it off: whether it is on sale, or
/// the answer to a body that is missing or malformed.
pub fn read_status_body(body: RequestBody<bool>) -> (r: Result<bool, PlansReply>)
    ensures
        match body {
            RequestBody::Missing => r is Err && r->Err_0@ == Reply::BadRequest("缺少请求体"@),
            RequestBody::Malformed => r is Err && r->Err_0@ == Reply::BadRequest("输入验证失败"@),
            RequestBody::Read(enabled) => r == Ok::<bool, PlansReply>(enabled),
        },
{
    match body {
        RequestBody::Missing => Err(PlansReply::BadRequest("缺少请求体".to_string())),
        RequestBody::Malformed => Err(PlansReply::BadRequest("输入验证失败".to_string())),
        RequestBody::Read(enabled) => Ok(enabled),
    }
}

/// What the store made of a change.
#[derive(Debug)]
pub enum LocalMutationOutcome {
    Applied,
    NotFound,
    Invalid(String),
    Unavailable,
}

/// What a change is answered.
pub open spec fn reply_of(route: Route, outcome: LocalMutationOutcome) -> Reply {
    match (route, outcome) {
        (Route::Delete { .. }, LocalMutationOutcome::Applied) => Reply::NoContent,
        (Route::Delete { .. }, LocalMutationOutcome::Invalid(detail)) => Reply::Conflict(detail@),
        (Route::Create, LocalMutationOutcome::NotFound) => Reply::DataUnavailable,
        (_, LocalMutationOutcome::Applied) => Reply::Plan,
        (_, LocalMutationOutcome::NotFound) => Reply::NotFound("Billing plan not found"@),
        (_, LocalMutationOutcome::Invalid(_)) => Reply::DataUnavailable,
        (_, LocalMutationOutcome::Unavailable) => Reply::DataUnavailable,
    }
}

/// What a change is answered, by what it was and what the store made of it.
pub fn reply_to_plan_change(route: &PlansRoute, outcome: LocalMutationOutcome) -> (r: PlansReply)
    requires
        !(route is NotHandled),
        !(route is List),
    ensures
        r@ == reply_of(route@, outcome),
{
    match outcome {
        LocalMutationOutcome::Applied => match route {
            PlansRoute::Delete { .. } => PlansReply::NoContent,
            _ => PlansReply::Plan,
        },
        LocalMutationOutcome::NotFound => match route {
            PlansRoute::Create => PlansReply::DataUnavailable,
            _ => PlansReply::NotFound("Billing plan not found".to_string()),
        },
        LocalMutationOutcome::Invalid(detail) => match route {
            PlansRoute::Delete { .. } => PlansReply::Conflict(detail),
            _ => PlansReply::DataUnavailable,
        },
        LocalMutationOutcome::Unavailable => PlansReply::DataUnavailable,
    }
}

/// A trailing slash does not change what a request asks for.
pub proof fn a_trailing_slash_changes_nothing(method: HttpMethod, request_path: Seq<char>)
    ensures
        route_of(method, request_path.push('/')) == route_of(method, request_path),
{
    assert(request_path.push('/').drop_last() =~= request_path);
}

/// A plan that a request names is one segment of the path.
pub proof fn a_named_plan_is_one_segment(method: HttpMethod, request_path: Seq<char>)
    ensures
        match route_of(method, request_path) {
            Route::Update { plan_id } => path::is_segment(plan_id),
            Route::SetEnabled { plan_id } => path::is_segment(plan_id),
            Route::Delete { plan_id } => path::is_segment(plan_id),
            _ => true,
        },
{
}

} // verus!
