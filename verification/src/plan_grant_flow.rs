//! The course of a grant, from the request of an administrator to the answer.

use crate::billing_plan_routes::RequestBody;
use crate::plan_grants;
use crate::plan_grants::{
    AdminGrantUserPlanRequest, AdminWalletMutationOutcome, Answer, CreatePlanPurchaseOrderInput,
    CreatePlanPurchaseOrderOutcome, CreditPaymentOrderInput, GrantReply, GrantedPlan,
};
use crate::text;
use vstd::prelude::*;
use vstd::string::*;

verus! {

/// What a grant waits for.
#[derive(Debug, Clone, Copy, PartialEq, Eq, Structural)]
pub enum GrantStage {
    Start,
    User,
    Body,
    Plan,
    Order,
    Credit,
    Entitlements,
    Done,
}

/// What happened.
#[derive(Debug)]
pub enum GrantEvent {
    /// A request arrived under a path.
    Begin { path: String },
    /// The user was found, or not.
    User { found: bool },
    /// The body of the request was read, or not.
    Body(RequestBody<AdminGrantUserPlanRequest>),
    /// The plan was found, or not. An order for it would have this number, and be open up to this
    /// moment.
    Plan { plan: Option<GrantedPlan>, order_no: String, expires_at_unix_secs: u64 },
    /// The store made an order, or not; none where it is not available.
    Order(Option<CreatePlanPurchaseOrderOutcome>),
    /// The order was credited, or not.
    Credit(AdminWalletMutationOutcome),
    /// The plans of the user were read, or not.
    Entitlements { read: bool },
}

/// What is to be done next.
#[derive(Debug)]
pub enum GrantAction {
    FindUser { user_id: String },
    ReadBody,
    FindPlan { plan_id: String },
    /// Make an order. The reason goes on record with it.
    CreateOrder { order: CreatePlanPurchaseOrderInput, reason: Option<String> },
    CreditOrder(CreditPaymentOrderInput),
    ReadEntitlements { user_id: String },
    Reply(GrantReply),
}

/// A grant under way.
#[derive(Debug)]
pub struct PlanGrant {
    pub stage: GrantStage,
    pub operator_id: Option<String>,
    pub user_id: String,
    pub reason: Option<String>,
    pub order_no: String,
    pub plan: Option<GrantedPlan>,
}

impl PlanGrant {
    /// A grant by an administrator that has not begun.
    pub fn new(operator_id: Option<String>) -> (r: Self)
        ensures
            r.stage is Start,
            r.operator_id == operator_id,
            r.plan is None,
    {
        PlanGrant {
            stage: GrantStage::Start,
            operator_id,
            user_id: String::new(),
            reason: None,
            order_no: String::new(),
            plan: None,
        }
    }

    /// Once there is an order there is a plan.
    pub open spec fn wf(&self) -> bool {
        self.stage is Order ==> self.plan is Some
    }

    /// The event is the one that is waited for.
    pub open spec fn expects(&self, event: GrantEvent) -> bool {
        match event {
            GrantEvent::Begin { .. } => self.stage is Start,
            GrantEvent::User { .. } => self.stage is User,
            GrantEvent::Body(_) => self.stage is Body,
            GrantEvent::Plan { .. } => self.stage is Plan,
            GrantEvent::Order(_) => self.stage is Order,
            GrantEvent::Credit(_) => self.stage is Credit,
            GrantEvent::Entitlements { .. } => self.stage is Entitlements,
        }
    }

    /// The grant ends with an answer.
    pub open spec fn ended(&self, action: GrantAction, answer: Answer) -> bool {
        &&& self.stage is Done
        &&& action is Reply
        &&& action->Reply_0@ == answer
    }

    /// What an event leads to.
    pub open spec fn led_to(&self, event: GrantEvent, next: &Self, action: GrantAction) -> bool {
        match event {
            GrantEvent::Begin { path } => match plan_grants::user_id_of(
                path@,
                "/billing/grant-plan"@,
            ) {
                None => next.ended(action, Answer::BadRequest("缺少 user_id"@)),
                Some(user_id) => {
                    &&& next.stage is User
                    &&& next.user_id@ == user_id
                    &&& action is FindUser
                    &&& action->FindUser_user_id@ == user_id
                },
            },
            GrantEvent::User { found } => if found {
                next.stage is Body && next.user_id@ == self.user_id@ && action is ReadBody
            } else {
                next.ended(action, Answer::NotFound("用户不存在"@))
            },
            GrantEvent::Body(RequestBody::Missing) => next.ended(
                action,
                Answer::BadRequest("缺少请求体"@),
            ),
            GrantEvent::Body(RequestBody::Malformed) => next.ended(
                action,
                Answer::BadRequest("输入验证失败"@),
            ),
            GrantEvent::Body(RequestBody::Read(request)) => match plan_grants::request_fault(
                request.plan_id@,
                text::opt_string(request.reason),
            ) {
                Some(message) => next.ended(action, Answer::BadRequest(message)),
                None => {
                    &&& next.stage is Plan
                    &&& next.user_id@ == self.user_id@
                    &&& text::opt_string(next.reason) == plan_grants::reason_of(
                        text::opt_string(request.reason),
                    )->Ok_0
                    &&& action is FindPlan
                    &&& action->plan_id@ == text::trimmed(request.plan_id@)
                },
            },
            GrantEvent::Plan { plan, order_no, expires_at_unix_secs } => match plan {
                None => next.ended(action, Answer::NotFound("套餐不存在"@)),
                Some(plan) => if !plan_grants::grants_rights(plan.entitlements) {
                    next.ended(action, Answer::BadRequest("余额包已移除，请使用钱包充值功能"@))
                } else {
                    &&& next.stage is Order
                    &&& next.user_id@ == self.user_id@
                    &&& next.order_no@ == order_no@
                    &&& next.plan == Some(plan)
                    &&& action is CreateOrder
                    &&& plan_grants::is_grant_order(
                        action->order,
                        self.user_id@,
                        plan,
                        order_no@,
                        expires_at_unix_secs,
                    )
                    &&& text::opt_string(action->reason) == text::opt_string(self.reason)
                },
            },
            GrantEvent::Order(None) => next.ended(action, Answer::DataUnavailable),
            GrantEvent::Order(Some(CreatePlanPurchaseOrderOutcome::WalletInactive)) => next.ended(
                action,
                Answer::BadRequest("wallet is not active"@),
            ),
            GrantEvent::Order(Some(CreatePlanPurchaseOrderOutcome::ActivePlanLimitReached)) =>
                next.ended(action, Answer::Conflict("套餐购买限制已达到上限"@)),
            GrantEvent::Order(Some(CreatePlanPurchaseOrderOutcome::Created { order_id })) => {
                &&& next.stage is Credit
                &&& next.user_id@ == self.user_id@
                &&& action is CreditOrder
                &&& action->CreditOrder_0.order_id@ == order_id@
                &&& action->CreditOrder_0.gateway_order_id@ == self.order_no@
                &&& action->CreditOrder_0.pay_amount.bits == 0
                &&& action->CreditOrder_0.pay_currency@ == self.plan->0.price_currency@
                &&& action->CreditOrder_0.exchange_rate.bits == plan_grants::ONE_BITS
                &&& text::opt_string(action->CreditOrder_0.operator_id) == text::opt_string(
                    self.operator_id,
                )
            },
            GrantEvent::Credit(AdminWalletMutationOutcome::Applied) => {
                &&& next.stage is Entitlements
                &&& next.user_id@ == self.user_id@
                &&& action is ReadEntitlements
                &&& action->ReadEntitlements_user_id@ == self.user_id@
            },
            GrantEvent::Credit(AdminWalletMutationOutcome::Invalid(detail)) => next.ended(
                action,
                Answer::Conflict(detail@),
            ),
            GrantEvent::Credit(_) => next.ended(action, Answer::DataUnavailable),
            GrantEvent::Entitlements { read } => next.ended(
                action,
                if read {
                    Answer::Granted {
                        event: "admin_user_plan_granted",
                        action: "grant_user_billing_plan",
                        target: "user",
                        user_id: self.user_id@,
                    }
                } else {
                    Answer::DataUnavailable
                },
            ),
        }
    }

    fn reply(&mut self, reply: GrantReply) -> (r: GrantAction)
        ensures
            final(self).ended(r, reply@),
            final(self).operator_id == old(self).operator_id,
    {
        self.stage = GrantStage::Done;
        GrantAction::Reply(reply)
    }

    /// Takes an event in, and says what is to be done next.
    pub fn on_event(&mut self, event: GrantEvent) -> (r: GrantAction)
        requires
            old(self).wf(),
            old(self).expects(event),
        ensures
            final(self).wf(),
            final(self).operator_id == old(self).operator_id,
            old(self).led_to(event, final(self), r),
    {
        match event {
            GrantEvent::Begin { path } => match plan_grants::grant_user(path.as_str()) {
                Ok(user_id) => {
                    self.stage = GrantStage::User;
                    self.user_id = user_id.clone();
                    GrantAction::FindUser { user_id }
                },
                Err(reply) => self.reply(reply),
            },
            GrantEvent::User { found } => match plan_grants::ensure_user_exists(found) {
                Ok(_) => {
                    self.stage = GrantStage::Body;
                    GrantAction::ReadBody
                },
                Err(reply) => self.reply(reply),
            },
            GrantEvent::Body(body) => match plan_grants::read_grant_body(body) {
                Ok(request) => {
                    self.stage = GrantStage::Plan;
                    self.reason = request.reason;
                    GrantAction::FindPlan { plan_id: request.plan_id }
                },
                Err(reply) => self.reply(reply),
            },
            GrantEvent::Plan { plan, order_no, expires_at_unix_secs } => {
                match plan_grants::grant_order(
                    self.user_id.as_str(),
                    plan.as_ref(),
                    order_no.as_str(),
                    expires_at_unix_secs,
                ) {
                    Ok(order) => {
                        self.stage = GrantStage::Order;
                        self.order_no = order_no;
                        self.plan = plan;
                        GrantAction::CreateOrder { order, reason: text::copy_of(&self.reason) }
                    },
                    Err(reply) => self.reply(reply),
                }
            },
            GrantEvent::Order(outcome) => {
                let credit = match &self.plan {
                    Some(plan) => plan_grants::grant_credit(
                        outcome,
                        plan,
                        self.order_no.as_str(),
                        text::as_text(&self.operator_id),
                    ),
                    None => Err(GrantReply::DataUnavailable),
                };
                match credit {
                    Ok(credit) => {
                        self.stage = GrantStage::Credit;
                        GrantAction::CreditOrder(credit)
                    },
                    Err(reply) => self.reply(reply),
                }
            },
            GrantEvent::Credit(outcome) => match plan_grants::conclude_grant_credit(outcome) {
                Ok(_) => {
                    self.stage = GrantStage::Entitlements;
                    GrantAction::ReadEntitlements { user_id: self.user_id.clone() }
                },
                Err(reply) => self.reply(reply),
            },
            GrantEvent::Entitlements { read } => {
                let reply = plan_grants::granted_reply(read, self.user_id.as_str());
                self.reply(reply)
            },
        }
    }
}

/// An order is made only for a plan that exists and grants more than a credit, and only after the
/// user was found; it is credited only once it was made; and a grant is answered as done only after
/// the credit was applied.
pub proof fn a_grant_takes_every_step(
    before: PlanGrant,
    event: GrantEvent,
    after: PlanGrant,
    action: GrantAction,
)
    requires
        before.wf(),
        before.expects(event),
        before.led_to(event, &after, action),
    ensures
        action is ReadBody ==> event == (GrantEvent::User { found: true }),
        action is CreateOrder ==> before.stage is Plan && after.stage is Order
            && after.plan is Some && plan_grants::grants_rights(after.plan->0.entitlements),
        action is CreditOrder ==> before.stage is Order && event->Order_0 is Some
            && event->Order_0->0 is Created,
        action is ReadEntitlements ==> event == GrantEvent::Credit(
            AdminWalletMutationOutcome::Applied,
        ),
        (action is Reply && action->Reply_0@ is Granted) ==> before.stage is Entitlements,
        action is Reply <==> after.stage is Done,
{
}

} // verus!
