//! Cost reservations of admitted requests: from the policy that a request was admitted under to the
//! reservation in the ledger.

use crate::binary64;
use crate::binary64::Binary64;
use crate::cost_ledger::{
    ReconcileUsagePolicyCostInput, ReserveUsagePolicyCostInput, ReserveUsagePolicyCostOutcome,
    UsagePolicyCostReservationState, UsagePolicyCostWindow,
};
use crate::effective_policy::{EffectiveCostRule, EffectivePlanUsagePolicy};
use crate::error;
use crate::error::{GatewayError, GatewayFault};
use crate::ledger_input;
use crate::plan_windows;
use crate::plan_windows::{CostPlacement, PlanUsagePolicyRejection, PolicyLimit, RuntimeCostRule};
use crate::text;
use std::sync::Arc;
use vstd::prelude::*;
use vstd::string::*;
use vstd::utf8::*;

verus! {

/// How long a reservation stays open: a day.
pub const COST_RESERVATION_TTL_SECS: u64 = 86_400;

/// How long the record of a reservation is kept at least: thirty-two days.
pub const COST_RESERVATION_SAFE_HISTORY_SECS: u64 = 2_764_800;

/// Who sent a request.
#[derive(Debug, Clone, PartialEq, Eq)]
pub struct GatewayControlAuthContext {
    pub user_id: String,
    pub admin_bypass_limits: bool,
    pub api_key_is_standalone: bool,
}

/// The administrator who sent a request.
#[derive(Debug, Clone, PartialEq, Eq)]
pub struct GatewayAdminPrincipal {
    pub user_id: String,
}

/// What was decided on a request when it arrived.
#[derive(Debug, Clone, PartialEq, Eq)]
pub struct GatewayControlDecision {
    pub route_class: Option<String>,
    pub auth_context: Option<GatewayControlAuthContext>,
    pub admin_principal: Option<GatewayAdminPrincipal>,
}

/// The sender whose plan limits a request: that of a public request, unless limits do not hold for
/// it.
pub open spec fn limited_sender(decision: GatewayControlDecision) -> Option<
    GatewayControlAuthContext,
> {
    match decision.auth_context {
        Some(auth) => if text::opt_string(decision.route_class) == Some("ai_public"@)
            && !auth.admin_bypass_limits && !auth.api_key_is_standalone {
            Some(auth)
        } else {
            None
        },
        None => None,
    }
}

/// The sender whose plan limits a request.
pub fn plan_usage_auth_context(decision: &GatewayControlDecision) -> (r: Option<
    &GatewayControlAuthContext,
>)
    ensures
        match r {
            Some(auth) => limited_sender(*decision) == Some(*auth),
            None => limited_sender(*decision) is None,
        },
{
    let public = match &decision.route_class {
        Some(class) => text::same(class.as_str(), "ai_public"),
        None => false,
    };
    match &decision.auth_context {
        Some(auth) => {
            if public && !auth.admin_bypass_limits && !auth.api_key_is_standalone {
                Some(auth)
            } else {
                None
            }
        },
        None => None,
    }
}

/// The policy that a request was admitted under, as it was at that moment.
#[derive(Debug)]
pub struct PlanUsagePolicySnapshot {
    pub admitted_at_unix_secs: u64,
    subject_id: String,
    policy: Arc<EffectivePlanUsagePolicy>,
}

impl Clone for PlanUsagePolicySnapshot {
    fn clone(&self) -> (r: Self)
        ensures
            r.subject() == self.subject(),
            r.spec_policy() == self.spec_policy(),
            r.admitted_at() == self.admitted_at(),
    {
        PlanUsagePolicySnapshot {
            admitted_at_unix_secs: self.admitted_at_unix_secs,
            subject_id: self.subject_id.clone(),
            policy: self.policy.clone(),
        }
    }
}

impl PlanUsagePolicySnapshot {
    /// Whose policy it is.
    pub closed spec fn subject(&self) -> Seq<char> {
        self.subject_id@
    }

    /// The policy.
    pub closed spec fn spec_policy(&self) -> EffectivePlanUsagePolicy {
        *self.policy
    }

    /// When the request was admitted.
    pub closed spec fn admitted_at(&self) -> u64 {
        self.admitted_at_unix_secs
    }

    /// The policy of a request that was admitted, where it has rules on cost.
    pub fn for_admission(
        subject_id: &str,
        policy: EffectivePlanUsagePolicy,
        admitted_at_unix_secs: u64,
    ) -> (r: Option<Self>)
        ensures
            match r {
                Some(snapshot) => {
                    &&& policy.cost_rules@.len() > 0
                    &&& snapshot.subject() == subject_id@
                    &&& snapshot.spec_policy() == policy
                    &&& snapshot.admitted_at() == admitted_at_unix_secs
                },
                None => policy.cost_rules@.len() == 0,
            },
    {
        if policy.cost_rules.len() == 0 {
            return None;
        }
        Some(
            PlanUsagePolicySnapshot {
                admitted_at_unix_secs,
                subject_id: subject_id.to_string(),
                policy: Arc::new(policy),
            },
        )
    }

    /// A reservation under this policy, with a token of its own. No more is said of the token than
    /// that it is a version four UUID.
    pub fn new_reservation_context(&self) -> (r: PlanUsageReservationContext)
        ensures
            r.same_admission(self),
            is_uuid_text(r.spec_token()),
    {
        self.reservation_with_token(random_token())
    }

    /// A reservation under this policy with a given token.
    pub fn reservation_with_token(&self, token: String) -> (r: PlanUsageReservationContext)
        ensures
            r.same_admission(self),
            r.spec_token() == token@,
    {
        PlanUsageReservationContext {
            policy_snapshot: self.clone(),
            token,
        }
    }

    /// Whose policy it is.
    pub fn subject_id(&self) -> (r: &str)
        ensures
            r@ == self.subject(),
    {
        self.subject_id.as_str()
    }

    /// The policy.
    pub fn policy(&self) -> (r: &EffectivePlanUsagePolicy)
        ensures
            *r == self.spec_policy(),
    {
        &self.policy
    }
}

/// A reservation in the making: the policy, and the token that it will stand under.
#[derive(Debug)]
pub struct PlanUsageReservationContext {
    policy_snapshot: PlanUsagePolicySnapshot,
    token: String,
}

impl Clone for PlanUsageReservationContext {
    fn clone(&self) -> (r: Self)
        ensures
            r.subject() == self.subject(),
            r.spec_policy() == self.spec_policy(),
            r.admitted_at() == self.admitted_at(),
            r.spec_token() == self.spec_token(),
    {
        PlanUsageReservationContext {
            policy_snapshot: self.policy_snapshot.clone(),
            token: self.token.clone(),
        }
    }
}

impl PlanUsageReservationContext {
    /// The token.
    pub closed spec fn spec_token(&self) -> Seq<char> {
        self.token@
    }

    /// Whose policy it is.
    pub closed spec fn subject(&self) -> Seq<char> {
        self.policy_snapshot.subject()
    }

    /// The policy.
    pub closed spec fn spec_policy(&self) -> EffectivePlanUsagePolicy {
        self.policy_snapshot.spec_policy()
    }

    /// When the request was admitted.
    pub closed spec fn admitted_at(&self) -> u64 {
        self.policy_snapshot.admitted_at()
    }

    /// The reservation is under a policy, as that was at the moment of admission.
    pub open spec fn same_admission(&self, snapshot: &PlanUsagePolicySnapshot) -> bool {
        &&& self.subject() == snapshot.subject()
        &&& self.spec_policy() == snapshot.spec_policy()
        &&& self.admitted_at() == snapshot.admitted_at()
    }

    /// Whose policy it is.
    pub fn subject_id(&self) -> (r: &str)
        ensures
            r@ == self.subject(),
    {
        self.policy_snapshot.subject_id()
    }

    /// The token.
    pub fn token(&self) -> (r: &str)
        ensures
            r@ == self.spec_token(),
    {
        self.token.as_str()
    }

    /// The policy.
    pub fn policy(&self) -> (r: &EffectivePlanUsagePolicy)
        ensures
            *r == self.spec_policy(),
    {
        self.policy_snapshot.policy()
    }

    /// When the request was admitted.
    pub fn admitted_at_unix_secs(&self) -> (r: u64)
        ensures
            r == self.admitted_at(),
    {
        self.policy_snapshot.admitted_at_unix_secs
    }
}

/// A lower case hexadecimal digit.
pub open spec fn is_hex_digit(c: char) -> bool {
    ('0' <= c && c <= '9') || ('a' <= c && c <= 'f')
}

/// The position of a hyphen in a UUID.
pub open spec fn is_hyphen_place(i: int) -> bool {
    i == 8 || i == 13 || i == 18 || i == 23
}

/// A version four UUID in lower case hexadecimal digits, grouped by hyphens.
pub open spec fn is_uuid_text(s: Seq<char>) -> bool {
    &&& s.len() == 36
    &&& forall|i: int|
        0 <= i < 36 ==> if is_hyphen_place(i) {
            #[trigger] s[i] == '-'
        } else {
            is_hex_digit(s[i])
        }
    &&& s[14] == '4'
}

/// Calls `Uuid::new_v4` and `to_string`: thirty-two lower case hexadecimal digits in groups of eight,
/// four, four, four and twelve, with hyphens between, of which the first digit of the third group
/// tells the version. The other digits are random, or mark the variant; nothing is said of them.
#[verifier::external_body]
fn random_token() -> (r: String)
    ensures
        is_uuid_text(r@),
{
    uuid::Uuid::new_v4().to_string()
}

/// A UUID is an id that the ledgers take.
pub proof fn a_random_token_is_a_ledger_id(token: Seq<char>, field: Seq<char>)
    requires
        is_uuid_text(token),
    ensures
        ledger_input::id_fault(token, field) is None,
{
    assert(is_ascii_chars(token)) by {
        assert forall|i: int| 0 <= i < token.len() implies (token[i] as u32) < 128 by {
            assert(is_hyphen_place(i) || is_hex_digit(token[i]));
        }
    }
    is_ascii_chars_encode_utf8(token);
    assert(!text::is_white_space(token[0])) by {
        assert(is_hex_digit(token[0]));
    }
    assert(text::trimmed_start(token) == token);
    assert(!text::is_white_space(token.last())) by {
        assert(is_hex_digit(token[35]));
    }
    assert(text::trimmed_end(token) == token);
}

/// What became of the cost of a request.
#[derive(Debug, Clone, Copy, PartialEq, Eq)]
pub enum PlanUsageCostReservationOutcome {
    NotRequired,
    Reserved,
    Rejected(PlanUsagePolicyRejection),
}

/// What is to be done about the cost of a request.
#[derive(Debug)]
pub enum CostReservationStart {
    NotRequired,
    /// The cost is to be estimated and reserved for this user.
    Estimate { user_id: String },
}

/// Whether `r` is an internal error with a text.
pub open spec fn fails_internally<T>(r: Result<T, GatewayError>, message: Seq<char>) -> bool {
    r is Err && r->Err_0@ == GatewayFault::Internal(message)
}

/// The text of the error where costs cannot be settled in the end.
pub open spec fn runtime_disabled() -> Seq<char> {
    "plan cost limits require the usage runtime to be enabled for terminal reconciliation"@
}

/// Cost limits hold only where the usage runtime settles costs in the end.
pub fn ensure_cost_policy_usage_runtime_enabled(enabled: bool) -> (r: Result<(), GatewayError>)
    ensures
        enabled ==> r is Ok,
        !enabled ==> fails_internally(r, runtime_disabled()),
{
    if enabled {
        Ok(())
    } else {
        Err(
            error::internal(
                "plan cost limits require the usage runtime to be enabled for terminal reconciliation",
            ),
        )
    }
}

/// What is to be done about the cost of a request under a policy.
pub open spec fn starts_with(
    r: Result<CostReservationStart, GatewayError>,
    decision: GatewayControlDecision,
    cost_rules: nat,
    usage_runtime_enabled: bool,
) -> bool {
    if limited_sender(decision) is None || cost_rules == 0 {
        r == Ok::<CostReservationStart, GatewayError>(CostReservationStart::NotRequired)
    } else if !usage_runtime_enabled {
        fails_internally(r, runtime_disabled())
    } else {
        &&& r is Ok
        &&& r->Ok_0 is Estimate
        &&& r->Ok_0->user_id@ == limited_sender(decision)->0.user_id@
    }
}

/// What is to be done about the cost of a request under a policy: nothing where no plan limits it or
/// no rule is on cost.
pub fn start_plan_usage_policy_cost(
    decision: &GatewayControlDecision,
    policy: &EffectivePlanUsagePolicy,
    usage_runtime_enabled: bool,
) -> (r: Result<CostReservationStart, GatewayError>)
    ensures
        starts_with(r, *decision, policy.cost_rules@.len(), usage_runtime_enabled),
{
    let auth = match plan_usage_auth_context(decision) {
        Some(auth) => auth,
        None => return Ok(CostReservationStart::NotRequired),
    };
    if policy.cost_rules.len() == 0 {
        return Ok(CostReservationStart::NotRequired);
    }
    ensure_cost_policy_usage_runtime_enabled(usage_runtime_enabled)?;
    Ok(CostReservationStart::Estimate { user_id: auth.user_id.clone() })
}

/// The text of the error where a reservation is used for another subject.
pub open spec fn wrong_subject() -> Seq<char> {
    "plan usage reservation subject does not match the admitted request"@
}

/// What is to be done about the cost of an HTTP request that was admitted with a reservation.
pub fn reserve_admitted_http_plan_usage_policy_cost(
    decision: &GatewayControlDecision,
    reservation: Option<&PlanUsageReservationContext>,
    usage_runtime_enabled: bool,
) -> (r: Result<CostReservationStart, GatewayError>)
    ensures
        match reservation {
            None => r == Ok::<CostReservationStart, GatewayError>(
                CostReservationStart::NotRequired,
            ),
            Some(reservation) => if limited_sender(*decision) is Some && reservation.subject()
                != limited_sender(*decision)->0.user_id@ {
                fails_internally(r, wrong_subject())
            } else {
                starts_with(
                    r,
                    *decision,
                    reservation.spec_policy().cost_rules@.len(),
                    usage_runtime_enabled,
                )
            },
        },
{
    let auth = match plan_usage_auth_context(decision) {
        Some(auth) => auth,
        None => return Ok(CostReservationStart::NotRequired),
    };
    let reservation = match reservation {
        Some(reservation) => reservation,
        None => return Ok(CostReservationStart::NotRequired),
    };
    if !text::same(reservation.subject_id(), auth.user_id.as_str()) {
        return Err(
            error::internal("plan usage reservation subject does not match the admitted request"),
        );
    }
    start_plan_usage_policy_cost(decision, reservation.policy(), usage_runtime_enabled)
}

/// What is to be done about the cost of a request that was admitted under a policy.
pub fn reserve_admitted_plan_usage_policy_cost(
    decision: &GatewayControlDecision,
    snapshot: Option<&PlanUsagePolicySnapshot>,
    usage_runtime_enabled: bool,
) -> (r: Result<CostReservationStart, GatewayError>)
    ensures
        match snapshot {
            None => r == Ok::<CostReservationStart, GatewayError>(
                CostReservationStart::NotRequired,
            ),
            Some(snapshot) => if limited_sender(*decision) is Some && snapshot.subject()
                != limited_sender(*decision)->0.user_id@ {
                fails_internally(r, wrong_subject())
            } else {
                starts_with(
                    r,
                    *decision,
                    snapshot.spec_policy().cost_rules@.len(),
                    usage_runtime_enabled,
                )
            },
        },
{
    let auth = match plan_usage_auth_context(decision) {
        Some(auth) => auth,
        None => return Ok(CostReservationStart::NotRequired),
    };
    let snapshot = match snapshot {
        Some(snapshot) => snapshot,
        None => return Ok(CostReservationStart::NotRequired),
    };
    if !text::same(snapshot.subject_id(), auth.user_id.as_str()) {
        return Err(
            error::internal("plan usage reservation subject does not match the admitted request"),
        );
    }
    start_plan_usage_policy_cost(decision, snapshot.policy(), usage_runtime_enabled)
}

/// The windows of the cost rules from position `from` on, behind those placed before.
pub open spec fn placed_rules(
    rules: Seq<EffectiveCostRule>,
    from: nat,
    placed: Seq<CostPlacement>,
    admitted_at: u64,
    app_timezone: Option<Seq<char>>,
) -> Result<Seq<CostPlacement>, GatewayFault>
    decreases rules.len() - from,
{
    if from >= rules.len() {
        Ok(placed)
    } else {
        match plan_windows::cost_placement(rules[from as int], admitted_at, app_timezone) {
            Ok(p) => placed_rules(rules, from + 1, placed.push(p), admitted_at, app_timezone),
            Err(fault) => Err(fault),
        }
    }
}

/// The latest of a moment and the ends of influence of the first `count` windows.
pub open spec fn latest_influence(placed: Seq<CostPlacement>, count: nat, moment: u64) -> u64
    decreases count,
{
    if count == 0 || count > placed.len() {
        moment
    } else {
        let before = latest_influence(placed, (count - 1) as nat, moment);
        if placed[count - 1].influence_ends_at > before {
            placed[count - 1].influence_ends_at
        } else {
            before
        }
    }
}

/// Up to when the record of a reservation is kept.
pub open spec fn cost_retention(placed: Seq<CostPlacement>, admitted_at: u64) -> u64 {
    latest_influence(
        placed,
        placed.len(),
        plan_windows::more(admitted_at, COST_RESERVATION_SAFE_HISTORY_SECS),
    )
}

/// Placed rules by their texts and numbers.
pub open spec fn placements(rules: Seq<RuntimeCostRule>) -> Seq<CostPlacement> {
    Seq::new(rules.len(), |i: int| rules[i]@)
}

/// The request asks for a reservation in exactly these windows.
pub open spec fn asks_for_windows(
    windows: Seq<UsagePolicyCostWindow>,
    placed: Seq<CostPlacement>,
) -> bool {
    &&& windows.len() == placed.len()
    &&& forall|i: int|
        0 <= i < placed.len() ==> {
            &&& (#[trigger] windows[i]).window_id@ == placed[i].window_id
            &&& windows[i].starts_at_unix_secs == placed[i].starts_at
            &&& windows[i].ends_at_unix_secs == placed[i].ends_at
            &&& windows[i].limit_cost_units == placed[i].limit
        }
}

/// A request for a reservation, and the rules that its windows stand for.
#[derive(Debug)]
pub struct CostReservationRequest {
    pub input: ReserveUsagePolicyCostInput,
    pub rules: Vec<RuntimeCostRule>,
}

/// What goes wrong before the ledger is asked: the cost is unknown or out of range, or a window
/// cannot be placed.
pub open spec fn request_fault(
    rules: Seq<EffectiveCostRule>,
    estimated_cost_usd: Option<Binary64>,
    admitted_at: u64,
    app_timezone: Option<Seq<char>>,
) -> Option<GatewayFault> {
    if estimated_cost_usd is None {
        Some(
            GatewayFault::Internal(
                "a hard plan cost limit is active, but this request cost cannot be estimated safely"@,
            ),
        )
    } else if binary64::nonnegative_cost_units(estimated_cost_usd->0) is None {
        Some(
            GatewayFault::Internal(
                "estimated request cost is outside the supported plan limit range"@,
            ),
        )
    } else {
        match placed_rules(rules, 0, Seq::empty(), admitted_at, app_timezone) {
            Ok(_) => None,
            Err(fault) => Some(fault),
        }
    }
}

/// The request that asks the ledger to reserve the estimated cost of a request in every window of a
/// policy.
pub fn reserve_plan_usage_policy_cost_with_policy(
    request_id: &str,
    user_id: &str,
    policy: &EffectivePlanUsagePolicy,
    admitted_at_unix_secs: u64,
    reservation_token: &str,
    estimated_cost_usd: Option<Binary64>,
    app_timezone: Option<&str>,
) -> (r: Result<CostReservationRequest, GatewayError>)
    requires
        forall|i: int|
            0 <= i < policy.cost_rules@.len() ==> plan_windows::placeable(
                (#[trigger] policy.cost_rules@[i]).window,
                admitted_at_unix_secs,
            ),
    ensures
        match request_fault(
            policy.cost_rules@,
            estimated_cost_usd,
            admitted_at_unix_secs,
            text::opt_view(app_timezone),
        ) {
            Some(fault) => r is Err && r->Err_0@ == fault,
            None => {
                let placed = placed_rules(
                    policy.cost_rules@,
                    0,
                    Seq::empty(),
                    admitted_at_unix_secs,
                    text::opt_view(app_timezone),
                )->Ok_0;
                let input = r->Ok_0.input;
                &&& r is Ok
                &&& placements(r->Ok_0.rules@) == placed
                &&& input.request_id@ == request_id@
                &&& input.subject_id@ == user_id@
                &&& input.reservation_token@ == reservation_token@
                &&& input.admitted_at_unix_secs == admitted_at_unix_secs
                &&& Some(input.reserved_cost_units) == binary64::nonnegative_cost_units(
                    estimated_cost_usd->0,
                )
                &&& input.reservation_expires_at_unix_secs == plan_windows::more(
                    admitted_at_unix_secs,
                    COST_RESERVATION_TTL_SECS,
                )
                &&& input.retain_until_unix_secs == cost_retention(placed, admitted_at_unix_secs)
                &&& asks_for_windows(input.windows@, placed)
            },
        },
{
    let cost = match estimated_cost_usd {
        Some(cost) => cost,
        None => return Err(
            error::internal(
                "a hard plan cost limit is active, but this request cost cannot be estimated safely",
            ),
        ),
    };
    let reserved_cost_units: u64 = match binary64::nonnegative_usd_to_usage_policy_cost_units(cost) {
        Some(units) => units,
        None => return Err(
            error::internal("estimated request cost is outside the supported plan limit range"),
        ),
    };
    let ghost zone = text::opt_view(app_timezone);
    let ghost expected = placed_rules(
        policy.cost_rules@,
        0,
        Seq::empty(),
        admitted_at_unix_secs,
        zone,
    );
    let reservation_expires_at_unix_secs: u64 = admitted_at_unix_secs.saturating_add(
        COST_RESERVATION_TTL_SECS,
    );
    let mut retain_until: u64 = admitted_at_unix_secs.saturating_add(
        COST_RESERVATION_SAFE_HISTORY_SECS,
    );
    let ghost kept_at_least = retain_until;
    let mut rules: Vec<RuntimeCostRule> = Vec::new();
    let mut windows: Vec<UsagePolicyCostWindow> = Vec::new();
    let mut at: usize = 0;
    assert(placements(rules@) =~= Seq::empty());
    while at < policy.cost_rules.len()
        invariant
            forall|i: int|
                0 <= i < policy.cost_rules@.len() ==> plan_windows::placeable(
                    (#[trigger] policy.cost_rules@[i]).window,
                    admitted_at_unix_secs,
                ),
            zone == text::opt_view(app_timezone),
            at <= policy.cost_rules@.len(),
            rules@.len() == at,
            expected == placed_rules(
                policy.cost_rules@,
                at as nat,
                placements(rules@),
                admitted_at_unix_secs,
                zone,
            ),
            asks_for_windows(windows@, placements(rules@)),
            retain_until == latest_influence(placements(rules@), at as nat, kept_at_least),
            expected is Err ==> request_fault(
                policy.cost_rules@,
                estimated_cost_usd,
                admitted_at_unix_secs,
                zone,
            ) == Some(expected->Err_0),
        decreases policy.cost_rules@.len() - at,
    {
        let ghost before = placements(rules@);
        let rule = plan_windows::runtime_cost_rule(
            &policy.cost_rules[at],
            admitted_at_unix_secs,
            app_timezone,
        )?;
        if rule.influence_ends_at_unix_secs > retain_until {
            retain_until = rule.influence_ends_at_unix_secs;
        }
        windows.push(
            UsagePolicyCostWindow {
                window_id: rule.window.window_id.clone(),
                starts_at_unix_secs: rule.window.starts_at_unix_secs,
                ends_at_unix_secs: rule.window.ends_at_unix_secs,
                limit_cost_units: rule.window.limit_cost_units,
            },
        );
        let ghost placed = rule@;
        rules.push(rule);
        proof {
            assert(placements(rules@) =~= before.push(placed));
            lemma_latest_influence_of_prefix(before, placed, at as nat, kept_at_least);
        }
        at += 1;
    }
    Ok(
        CostReservationRequest {
            input: ReserveUsagePolicyCostInput {
                request_id: request_id.to_string(),
                subject_id: user_id.to_string(),
                reservation_token: reservation_token.to_string(),
                admitted_at_unix_secs,
                reserved_cost_units,
                reservation_expires_at_unix_secs,
                retain_until_unix_secs: retain_until,
                windows,
            },
            rules,
        },
    )
}

proof fn lemma_latest_influence_of_prefix(
    placed: Seq<CostPlacement>,
    last: CostPlacement,
    count: nat,
    moment: u64,
)
    requires
        count <= placed.len(),
    ensures
        latest_influence(placed.push(last), count, moment) == latest_influence(
            placed,
            count,
            moment,
        ),
    decreases count,
{
    if count > 0 {
        lemma_latest_influence_of_prefix(placed, last, (count - 1) as nat, moment);
    }
}

/// The record of a reservation is kept at least until the reservation has expired, and until no
/// window that it was made in can count it any more.
pub proof fn a_reservation_is_kept_while_it_counts(
    placed: Seq<CostPlacement>,
    admitted_at: u64,
    index: int,
)
    requires
        0 <= index < placed.len(),
    ensures
        cost_retention(placed, admitted_at) >= placed[index].influence_ends_at,
        cost_retention(placed, admitted_at) >= plan_windows::more(
            admitted_at,
            COST_RESERVATION_TTL_SECS,
        ),
{
    lemma_latest_influence(
        placed,
        placed.len(),
        plan_windows::more(admitted_at, COST_RESERVATION_SAFE_HISTORY_SECS),
        index,
    );
}

proof fn lemma_latest_influence(
    placed: Seq<CostPlacement>,
    count: nat,
    moment: u64,
    index: int,
)
    requires
        0 <= index < count <= placed.len(),
    ensures
        latest_influence(placed, count, moment) >= moment,
        latest_influence(placed, count, moment) >= placed[index].influence_ends_at,
    decreases count,
{
    lemma_latest_influence_floor(placed, (count - 1) as nat, moment);
    if index < count - 1 {
        lemma_latest_influence(placed, (count - 1) as nat, moment, index);
    }
}

proof fn lemma_latest_influence_floor(placed: Seq<CostPlacement>, count: nat, moment: u64)
    ensures
        latest_influence(placed, count, moment) >= moment,
    decreases count,
{
    if count > 0 && count <= placed.len() {
        lemma_latest_influence_floor(placed, (count - 1) as nat, moment);
    }
}

/// What the answer of the ledger means for the request.
pub open spec fn concluded(
    request_id: Seq<char>,
    placed: Seq<CostPlacement>,
    reply: Result<Option<ReserveUsagePolicyCostOutcome>, Seq<char>>,
) -> Result<PlanUsageCostReservationOutcome, GatewayFault> {
    match reply {
        Err(message) => Err(GatewayFault::Internal(message)),
        Ok(None) => Err(
            GatewayFault::Internal("plan cost limits require a settlement write repository"@),
        ),
        Ok(Some(ReserveUsagePolicyCostOutcome::Allowed { .. })) => Ok(
            PlanUsageCostReservationOutcome::Reserved,
        ),
        Ok(
            Some(
                ReserveUsagePolicyCostOutcome::Rejected { window_index, limit_cost_units, .. },
            ),
        ) => if window_index < placed.len() {
            Ok(
                PlanUsageCostReservationOutcome::Rejected(
                    PlanUsagePolicyRejection {
                        metric: "actual_cost_usd",
                        limit: PolicyLimit::CostUnits(limit_cost_units),
                        retry_after: placed[window_index as int].retry_after,
                        window: placed[window_index as int].label,
                    },
                ),
            )
        } else {
            Err(
                GatewayFault::Internal(
                    "usage policy cost reservation returned an invalid window index"@,
                ),
            )
        },
        Ok(Some(ReserveUsagePolicyCostOutcome::AlreadyTerminal { state })) => Err(
            GatewayFault::Internal(
                "plan cost reservation for request "@ + request_id + " is already "@
                    + state.name(),
            ),
        ),
        Ok(Some(ReserveUsagePolicyCostOutcome::Conflict)) => Err(
            GatewayFault::Internal("plan cost reservation request identity conflict"@),
        ),
    }
}

/// A reply whose error is taken by its text.
pub open spec fn reply_of<T>(reply: Result<T, String>) -> Result<T, Seq<char>> {
    match reply {
        Ok(value) => Ok(value),
        Err(message) => Err(message@),
    }
}

/// What the answer of the ledger means for the request. `rules` are those that the request was made
/// with.
pub fn conclude_plan_usage_policy_cost(
    request_id: &str,
    rules: &Vec<RuntimeCostRule>,
    reply: Result<Option<ReserveUsagePolicyCostOutcome>, String>,
) -> (r: Result<PlanUsageCostReservationOutcome, GatewayError>)
    ensures
        match concluded(request_id@, placements(rules@), reply_of(reply)) {
            Ok(outcome) => r == Ok::<PlanUsageCostReservationOutcome, GatewayError>(outcome),
            Err(fault) => r is Err && r->Err_0@ == fault,
        },
{
    let outcome = match reply {
        Err(message) => return Err(GatewayError::Internal(message)),
        Ok(None) => return Err(
            error::internal("plan cost limits require a settlement write repository"),
        ),
        Ok(Some(outcome)) => outcome,
    };
    match outcome {
        ReserveUsagePolicyCostOutcome::Allowed { .. } => Ok(
            PlanUsageCostReservationOutcome::Reserved,
        ),
        ReserveUsagePolicyCostOutcome::Rejected { window_index, limit_cost_units, .. } => {
            if window_index >= rules.len() {
                return Err(
                    error::internal(
                        "usage policy cost reservation returned an invalid window index",
                    ),
                );
            }
            let rule = &rules[window_index];
            Ok(
                PlanUsageCostReservationOutcome::Rejected(
                    PlanUsagePolicyRejection {
                        metric: "actual_cost_usd",
                        limit: PolicyLimit::CostUnits(limit_cost_units),
                        retry_after: rule.retry_after,
                        window: rule.label,
                    },
                ),
            )
        },
        ReserveUsagePolicyCostOutcome::AlreadyTerminal { state } => {
            let mut message = text::joined("plan cost reservation for request ", request_id);
            message.append(" is already ");
            message.append(state.as_str());
            Err(GatewayError::Internal(message))
        },
        ReserveUsagePolicyCostOutcome::Conflict => Err(
            error::internal("plan cost reservation request identity conflict"),
        ),
    }
}

/// The reconciliation that gives a reservation back: nothing was spent.
pub fn build_usage_policy_cost_release_input(
    request_id: &str,
    subject_id: &str,
    reservation_token: &str,
    finalized_at_unix_secs: u64,
) -> (r: ReconcileUsagePolicyCostInput)
    ensures
        r.request_id@ == request_id@,
        r.subject_id@ == subject_id@,
        r.reservation_token@ == reservation_token@,
        r.actual_cost_units == 0,
        r.terminal_state is Released,
        r.finalized_at_unix_secs == finalized_at_unix_secs,
{
    ReconcileUsagePolicyCostInput {
        request_id: request_id.to_string(),
        subject_id: subject_id.to_string(),
        reservation_token: reservation_token.to_string(),
        actual_cost_units: 0,
        terminal_state: UsagePolicyCostReservationState::Released,
        finalized_at_unix_secs,
    }
}

/// The reconciliation that gives the reservation of a request back, where a plan limits it.
pub fn release_plan_usage_policy_cost(
    decision: &GatewayControlDecision,
    request_id: &str,
    reservation_token: &str,
    finalized_at_unix_secs: u64,
) -> (r: Option<ReconcileUsagePolicyCostInput>)
    ensures
        match limited_sender(*decision) {
            None => r is None,
            Some(auth) => {
                &&& r is Some
                &&& r->0.request_id@ == request_id@
                &&& r->0.subject_id@ == auth.user_id@
                &&& r->0.reservation_token@ == reservation_token@
                &&& r->0.actual_cost_units == 0
                &&& r->0.terminal_state is Released
                &&& r->0.finalized_at_unix_secs == finalized_at_unix_secs
            },
        },
{
    match plan_usage_auth_context(decision) {
        Some(auth) => Some(
            build_usage_policy_cost_release_input(
                request_id,
                auth.user_id.as_str(),
                reservation_token,
                finalized_at_unix_secs,
            ),
        ),
        None => None,
    }
}

} // verus!
