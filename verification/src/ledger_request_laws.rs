//! What a policy asks of the ledgers is what the ledgers take.

use crate::binary64;
use crate::binary64::Binary64;
use crate::cost_ledger;
use crate::cost_ledger::{ReserveUsagePolicyCostInput, UsagePolicyCostWindow};
use crate::effective_policy::{EffectiveCostRule, EffectiveRequestRule};
use crate::error::GatewayFault;
use crate::ledger_input;
use crate::ledger_input::MAX_DATABASE_INTEGER;
use crate::plan_admission_flow;
use crate::plan_usage_policy;
use crate::plan_usage_policy::COST_RESERVATION_TTL_SECS;
use crate::plan_windows;
use crate::plan_windows::{CostPlacement, DurableRequestRule};
use crate::request_ledger;
use crate::request_ledger::ReserveUsagePolicyRequestInput;
use crate::text;
use crate::usage_policy::MAX_USAGE_POLICY_TOTAL_RULES;
use vstd::prelude::*;
use vstd::string::*;

verus! {

proof fn lemma_digits(n: nat)
    ensures
        text::decimal(n).len() >= 1,
        forall|i: int|
            0 <= i < text::decimal(n).len() ==> 48 <= #[trigger] text::decimal(n)[i] as int <= 57,
    decreases n,
{
    if n < 10 {
        assert(text::digit(n) as int == 48 + n);
    } else {
        lemma_digits(n / 10);
        assert(text::digit(n % 10) as int == 48 + n % 10);
    }
}

proof fn lemma_trimmed_start_keeps_the_end(s: Seq<char>)
    requires
        s.len() > 0,
        !text::is_white_space(s.last()),
    ensures
        text::trimmed_start(s).len() > 0,
        text::trimmed_start(s).last() == s.last(),
    decreases s.len(),
{
    if text::is_white_space(s[0]) {
        assert(s.len() > 1);
        lemma_trimmed_start_keeps_the_end(s.drop_first());
    }
}

proof fn lemma_same_up_to_the_last_colon(
    a: Seq<char>,
    b: Seq<char>,
    x: Seq<char>,
    y: Seq<char>,
)
    requires
        forall|i: int| 0 <= i < x.len() ==> #[trigger] x[i] != ':',
        forall|i: int| 0 <= i < y.len() ==> #[trigger] y[i] != ':',
        a + ":"@ + x == b + ":"@ + y,
    ensures
        a == b,
{
    reveal_strlit(":");
    let s = a + ":"@ + x;
    let t = b + ":"@ + y;
    assert(s.len() == a.len() + 1 + x.len());
    assert(t.len() == b.len() + 1 + y.len());
    assert(s[a.len() as int] == ':');
    assert(t[b.len() as int] == ':');
    if a.len() < b.len() {
        assert(s[b.len() as int] == x[b.len() - a.len() - 1]);
    }
    if b.len() < a.len() {
        assert(t[a.len() as int] == y[a.len() - b.len() - 1]);
    }
    assert(s.take(a.len() as int) =~= a);
    assert(t.take(b.len() as int) =~= b);
}

pub(crate) proof fn lemma_placed_rules(
    rules: Seq<EffectiveCostRule>,
    from: nat,
    placed: Seq<CostPlacement>,
    admitted_at: u64,
    app_timezone: Option<Seq<char>>,
    all: Seq<CostPlacement>,
)
    requires
        from <= rules.len(),
        plan_usage_policy::placed_rules(rules, from, placed, admitted_at, app_timezone) == Ok::<
            Seq<CostPlacement>,
            GatewayFault,
        >(all),
    ensures
        all.len() == placed.len() + rules.len() - from,
        forall|i: int| 0 <= i < placed.len() ==> #[trigger] all[i] == placed[i],
        forall|i: int|
            placed.len() <= i < all.len() ==> Ok::<CostPlacement, GatewayFault>(
                #[trigger] all[i],
            ) == plan_windows::cost_placement(
                rules[i - placed.len() + from],
                admitted_at,
                app_timezone,
            ),
    decreases rules.len() - from,
{
    if from < rules.len() {
        let p = plan_windows::cost_placement(
            rules[from as int],
            admitted_at,
            app_timezone,
        )->Ok_0;
        lemma_placed_rules(rules, from + 1, placed.push(p), admitted_at, app_timezone, all);
        assert(all[placed.len() as int] == placed.push(p)[placed.len() as int]);
        assert forall|i: int| 0 <= i < placed.len() implies #[trigger] all[i] == placed[i] by {
            assert(all[i] == placed.push(p)[i]);
        }
    }
}

proof fn lemma_no_window_fault(
    windows: Seq<UsagePolicyCostWindow>,
    from: nat,
    admitted_at: u64,
)
    requires
        forall|i: nat|
            i < windows.len() ==> (#[trigger] cost_ledger::window_fault(
                windows,
                i,
                admitted_at,
            )) is None,
    ensures
        cost_ledger::first_window_fault(windows, from, admitted_at) is None,
    decreases windows.len() - from,
{
    if from < windows.len() {
        assert(cost_ledger::window_fault(windows, from, admitted_at) is None);
        lemma_no_window_fault(windows, from + 1, admitted_at);
    }
}

/// Rules on cost as a policy has them: of each window one, with a limit that the ledger holds.
pub open spec fn cost_rules_in_order(rules: Seq<EffectiveCostRule>) -> bool {
    &&& 1 <= rules.len() <= MAX_USAGE_POLICY_TOTAL_RULES
    &&& forall|i: int|
        0 <= i < rules.len() ==> 0 < (#[trigger] rules[i]).limit_cost_units <= MAX_DATABASE_INTEGER
    &&& forall|i: int, j: int|
        0 <= i < j < rules.len() ==> (#[trigger] rules[i]).identity@ != (
        #[trigger] rules[j]).identity@
}

/// What a policy asks the ledger to reserve, the ledger takes, wherever its windows hold the moment of
/// the admission and the ids are such that the ledger takes them.
pub proof fn a_request_for_cost_is_valid(
    rules: Seq<EffectiveCostRule>,
    placed: Seq<CostPlacement>,
    app_timezone: Option<Seq<char>>,
    cost: Binary64,
    input: ReserveUsagePolicyCostInput,
)
    requires
        cost_rules_in_order(rules),
        input.admitted_at_unix_secs < u64::MAX,
        plan_usage_policy::placed_rules(
            rules,
            0,
            Seq::empty(),
            input.admitted_at_unix_secs,
            app_timezone,
        ) == Ok::<Seq<CostPlacement>, GatewayFault>(placed),
        forall|i: int|
            0 <= i < placed.len() ==> (#[trigger] placed[i]).starts_at
                <= input.admitted_at_unix_secs < placed[i].ends_at,
        ledger_input::id_fault(input.request_id@, "usage policy request_id"@) is None,
        ledger_input::id_fault(input.subject_id@, "usage policy subject_id"@) is None,
        ledger_input::id_fault(input.reservation_token@, "usage policy reservation_token"@) is None,
        Some(input.reserved_cost_units) == binary64::nonnegative_cost_units(cost),
        input.reservation_expires_at_unix_secs == plan_windows::more(
            input.admitted_at_unix_secs,
            COST_RESERVATION_TTL_SECS,
        ),
        input.retain_until_unix_secs == plan_usage_policy::cost_retention(
            placed,
            input.admitted_at_unix_secs,
        ),
        plan_usage_policy::asks_for_windows(input.windows@, placed),
    ensures
        input.fault() is None,
{
    let at = input.admitted_at_unix_secs;
    let windows = input.windows@;
    lemma_placed_rules(rules, 0, Seq::empty(), at, app_timezone, placed);
    plan_usage_policy::a_reservation_is_kept_while_it_counts(placed, at, 0);
    assert forall|n: nat| n < windows.len() implies (#[trigger] cost_ledger::window_fault(
        windows,
        n,
        at,
    )) is None by {
        let i = n as int;
        let window = windows[i];
        let digits = text::decimal(placed[i].starts_at as nat);
        assert(Ok::<CostPlacement, GatewayFault>(placed[i])
            == plan_windows::cost_placement(rules[i], at, app_timezone));
        assert(window.window_id@ == rules[i].identity@ + ":"@ + digits);
        lemma_digits(placed[i].starts_at as nat);
        assert(window.window_id@.last() == digits.last());
        lemma_trimmed_start_keeps_the_end(window.window_id@);
        assert(text::trimmed(window.window_id@) == text::trimmed_start(window.window_id@));
        assert(window.limit_cost_units == rules[i].limit_cost_units);
        if cost_ledger::id_taken(windows, i, window.window_id@) {
            let j = choose|j: int|
                0 <= j < i && #[trigger] windows[j].window_id@ == window.window_id@;
            let others = text::decimal(placed[j].starts_at as nat);
            assert(Ok::<CostPlacement, GatewayFault>(placed[j])
                == plan_windows::cost_placement(rules[j], at, app_timezone));
            assert(windows[j].window_id@ == rules[j].identity@ + ":"@ + others);
            lemma_digits(placed[j].starts_at as nat);
            lemma_same_up_to_the_last_colon(
                rules[j].identity@,
                rules[i].identity@,
                others,
                digits,
            );
            assert(rules[j].identity@ != rules[i].identity@);
        }
    }
    lemma_no_window_fault(windows, 0, at);
}

proof fn lemma_long_windows(
    rules: Seq<EffectiveRequestRule>,
    from: nat,
    found: Seq<DurableRequestRule>,
    now: u64,
    app_timezone: Option<Seq<char>>,
    all: Seq<DurableRequestRule>,
)
    requires
        from <= rules.len(),
        plan_admission_flow::long_windows(rules, from, found, now, app_timezone) == Ok::<
            Seq<DurableRequestRule>,
            GatewayFault,
        >(all),
        forall|i: int|
            0 <= i < found.len() ==> (#[trigger] found[i]).window.ends_at_unix_secs
                <= found[i].influence_ends_at_unix_secs,
        forall|i: int|
            0 <= i < found.len() ==> 0 < (#[trigger] found[i]).window.limit_requests
                <= MAX_DATABASE_INTEGER,
        forall|i: int|
            0 <= i < rules.len() ==> 0 < (#[trigger] rules[i]).limit <= MAX_DATABASE_INTEGER,
    ensures
        all.len() <= found.len() + rules.len() - from,
        forall|i: int|
            0 <= i < all.len() ==> (#[trigger] all[i]).window.ends_at_unix_secs
                <= all[i].influence_ends_at_unix_secs,
        forall|i: int|
            0 <= i < all.len() ==> 0 < (#[trigger] all[i]).window.limit_requests
                <= MAX_DATABASE_INTEGER,
    decreases rules.len() - from,
{
    if from < rules.len() {
        let rule = rules[from as int];
        if plan_windows::is_short(rule.window) {
            lemma_long_windows(rules, from + 1, found, now, app_timezone, all);
        } else {
            let p = plan_windows::placement(
                rule.window,
                rule.entitlement_period,
                now,
                app_timezone,
            )->Ok_0;
            let next = plan_windows::durable_of(rule, now, p);
            lemma_long_windows(rules, from + 1, found.push(next), now, app_timezone, all);
        }
    }
}

proof fn lemma_no_request_window_fault(input: ReserveUsagePolicyRequestInput, from: nat)
    requires
        forall|i: int|
            0 <= i < input.windows@.len() ==> (#[trigger] input.windows@[i]).fault(
                i as usize,
                input.admitted_at_unix_secs,
                input.retain_until_unix_secs,
            ) is None,
    ensures
        request_ledger::first_window_fault(input, from) is None,
    decreases input.windows@.len() - from,
{
    if from < input.windows@.len() {
        assert(input.windows@[from as int].fault(
            from as int as usize,
            input.admitted_at_unix_secs,
            input.retain_until_unix_secs,
        ) is None);
        lemma_no_request_window_fault(input, from + 1);
    }
}

/// What an admission asks the ledger to count, the ledger takes, wherever its windows hold the moment
/// of the request, and the ids and moments are such that the ledger takes them.
pub proof fn a_request_for_admission_is_valid(
    rules: Seq<EffectiveRequestRule>,
    long: Seq<DurableRequestRule>,
    app_timezone: Option<Seq<char>>,
    subject_id: Seq<char>,
    event_id: Seq<char>,
    now: u64,
    input: ReserveUsagePolicyRequestInput,
)
    requires
        rules.len() <= MAX_USAGE_POLICY_TOTAL_RULES,
        forall|i: int|
            0 <= i < rules.len() ==> 0 < (#[trigger] rules[i]).limit <= MAX_DATABASE_INTEGER,
        plan_admission_flow::long_windows(rules, 0, Seq::empty(), now, app_timezone) == Ok::<
            Seq<DurableRequestRule>,
            GatewayFault,
        >(long),
        long.len() > 0,
        forall|i: int|
            0 <= i < long.len() ==> (#[trigger] long[i]).window.starts_at_unix_secs <= now
                < long[i].window.ends_at_unix_secs,
        plan_admission_flow::asks_ledger(input, subject_id, event_id, long, now),
        ledger_input::id_fault(event_id, "usage policy request_id"@) is None,
        ledger_input::id_fault(event_id, "usage policy event_token"@) is None,
        ledger_input::id_fault(subject_id, "usage policy subject_id"@) is None,
        input.retain_until_unix_secs <= MAX_DATABASE_INTEGER,
    ensures
        input.fault() is None,
{
    lemma_long_windows(rules, 0, Seq::empty(), now, app_timezone, long);
    assert forall|i: int| 0 <= i < input.windows@.len() implies (#[trigger] input.windows@[i]).fault(
        i as usize,
        input.admitted_at_unix_secs,
        input.retain_until_unix_secs,
    ) is None by {
        plan_admission_flow::an_admission_is_kept_while_it_counts(long, now, i);
        assert(input.windows@[i] == long[i].window);
    }
    lemma_no_request_window_fault(input, 0);
    plan_admission_flow::an_admission_is_kept_while_it_counts(long, now, 0);
}

} // verus!
