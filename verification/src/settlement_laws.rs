//! Who pays for a request and what it costs, by what was sent and what is stored.

use crate::amount_laws;
use crate::binary64::Binary64;
use crate::binary64_sum;
use crate::error::DataLayerError;
use crate::settlement;
use crate::settlement::{StoredUsageSettlement, UsageSettlementInput};
use crate::text;
use crate::text_laws;
use crate::token_map;
use crate::token_map::Entries;
use crate::wallet;
use crate::wallet::StoredWalletSnapshot;
use vstd::arithmetic::power2::*;
use vstd::prelude::*;
use vstd::string::*;

verus! {

/// The wallet is one of this API key.
pub open spec fn is_of_key(wallet: StoredWalletSnapshot, key: Seq<char>) -> bool {
    wallet.api_key_id is Some && wallet.api_key_id->0@ == key
}

/// The wallet is one of this user.
pub open spec fn is_of_user(wallet: StoredWalletSnapshot, user: Seq<char>) -> bool {
    wallet.user_id is Some && wallet.user_id->0@ == user
}

proof fn lemma_wallet_of_key(wallets: Entries<StoredWalletSnapshot>, key: Seq<char>, from: nat)
    ensures
        match settlement::wallet_of_key(wallets, key, from) {
            Some(at) => from <= at < wallets.len() && is_of_key(wallets[at as int].1, key)
                && forall|i: int| from <= i < at ==> !is_of_key((#[trigger] wallets[i]).1, key),
            None => forall|i: int|
                from <= i < wallets.len() ==> !is_of_key((#[trigger] wallets[i]).1, key),
        },
    decreases wallets.len() - from,
{
    if from < wallets.len() {
        lemma_wallet_of_key(wallets, key, from + 1);
    }
}

proof fn lemma_wallet_of_user(wallets: Entries<StoredWalletSnapshot>, user: Seq<char>, from: nat)
    ensures
        match settlement::wallet_of_user(wallets, user, from) {
            Some(at) => from <= at < wallets.len() && is_of_user(wallets[at as int].1, user)
                && forall|i: int| from <= i < at ==> !is_of_user((#[trigger] wallets[i]).1, user),
            None => forall|i: int|
                from <= i < wallets.len() ==> !is_of_user((#[trigger] wallets[i]).1, user),
        },
    decreases wallets.len() - from,
{
    if from < wallets.len() {
        lemma_wallet_of_user(wallets, user, from + 1);
    }
}

/// Wherever there is a wallet of the API key of a request, a wallet of that key pays, whether or not
/// the key stands alone. Where there is none, a wallet of the user pays, if there is one and the key
/// does not stand alone; else none does. Of several the first pays.
pub proof fn the_key_pays_if_it_can_and_else_the_user(
    wallets: Entries<StoredWalletSnapshot>,
    input: UsageSettlementInput,
)
    ensures
        ({
            let pays = settlement::paying_wallet(wallets, input);
            let by_key = input.api_key_id is Some && exists|i: int|
                0 <= i < wallets.len() && is_of_key(
                    (#[trigger] wallets[i]).1,
                    input.api_key_id->0@,
                );
            let by_user = !by_key && !input.api_key_is_standalone && input.user_id is Some
                && exists|i: int|
                0 <= i < wallets.len() && is_of_user(
                    (#[trigger] wallets[i]).1,
                    input.user_id->0@,
                );
            &&& pays is Some <==> by_key || by_user
            &&& pays is Some ==> pays->0 < wallets.len()
            &&& by_key ==> {
                &&& is_of_key(wallets[pays->0 as int].1, input.api_key_id->0@)
                &&& forall|i: int|
                    0 <= i < pays->0 ==> !is_of_key(
                        (#[trigger] wallets[i]).1,
                        input.api_key_id->0@,
                    )
            }
            &&& by_user ==> {
                &&& is_of_user(wallets[pays->0 as int].1, input.user_id->0@)
                &&& forall|i: int|
                    0 <= i < pays->0 ==> !is_of_user(
                        (#[trigger] wallets[i]).1,
                        input.user_id->0@,
                    )
            }
        }),
{
    if input.api_key_id is Some {
        lemma_wallet_of_key(wallets, input.api_key_id->0@, 0);
    }
    if input.user_id is Some {
        lemma_wallet_of_user(wallets, input.user_id->0@, 0);
    }
}

/// A request can be settled exactly if it has an id and both of its statuses, and its costs are finite.
pub proof fn a_settlement_is_valid_exactly_if_it_is_sound(input: UsageSettlementInput)
    ensures
        input.fault() is None <==> {
            &&& exists|i: int|
                0 <= i < input.request_id@.len() && !text::is_white_space(
                    #[trigger] input.request_id@[i],
                )
            &&& exists|i: int|
                0 <= i < input.status@.len() && !text::is_white_space(#[trigger] input.status@[i])
            &&& exists|i: int|
                0 <= i < input.billing_status@.len() && !text::is_white_space(
                    #[trigger] input.billing_status@[i],
                )
            &&& input.total_cost_usd.finite()
            &&& input.actual_total_cost_usd.finite()
        },
{
    text_laws::only_blank_texts_are_trimmed_away(input.request_id@);
    text_laws::only_blank_texts_are_trimmed_away(input.status@);
    text_laws::only_blank_texts_are_trimmed_away(input.billing_status@);
}

/// What a cost takes from each balance, where all amounts are multiples of one power of two and not
/// too many of them: from the recharge balance as much as is there, from the gift balance as much
/// of the rest as is there, and what is still left overdraws the recharge balance. Nothing of the
/// cost is lost, and a negative cost is none.
pub proof fn a_cost_is_taken_in_full(
    recharge: Binary64,
    gift: Binary64,
    cost: Binary64,
    r: int,
    g: int,
    asked: int,
    k: nat,
)
    requires
        recharge.finite(),
        gift.finite(),
        cost.finite(),
        recharge.value() == r * pow2(k),
        gift.value() == g * pow2(k),
        cost.value() == asked * pow2(k),
        -0x4_0000_0000_0000 < r < 0x4_0000_0000_0000,
        -0x4_0000_0000_0000 < g < 0x4_0000_0000_0000,
        -0x4_0000_0000_0000 < asked < 0x4_0000_0000_0000,
        k <= 2045,
    ensures
        ({
            let plan = wallet::debit(recharge, gift, cost);
            let c = above_zero(asked);
            let from_recharge = if r <= 0 {
                0
            } else if r < c {
                r
            } else {
                c
            };
            let from_gift = if g <= 0 {
                0
            } else if g < c - from_recharge {
                g
            } else {
                c - from_recharge
            };
            let overdraft = c - from_recharge - from_gift;
            &&& plan.recharge_deduction.value() == from_recharge * pow2(k)
            &&& plan.gift_deduction.value() == from_gift * pow2(k)
            &&& plan.recharge_overdraft.value() == overdraft * pow2(k)
            &&& plan.recharge_after(recharge).value() == (r - from_recharge - overdraft) * pow2(k)
            &&& plan.gift_after(gift).value() == (g - from_gift) * pow2(k)
            &&& plan.recharge_after(recharge).finite()
            &&& plan.gift_after(gift).finite()
        }),
        ({
            let plan = wallet::debit(recharge, gift, cost);
            plan.recharge_after(recharge).value() + plan.gift_after(gift).value()
                == recharge.value() + gift.value() - above_zero(asked) * pow2(k)
        }),
{
    let c = above_zero(asked);
    let from_recharge = if r <= 0 {
        0
    } else if r < c {
        r
    } else {
        c
    };
    let rem = c - from_recharge;
    let from_gift = if g <= 0 {
        0
    } else if g < rem {
        g
    } else {
        rem
    };
    let overdraft = rem - from_gift;
    let requested = wallet::at_least_zero(cost);
    let first = binary64_sum::lesser(wallet::at_least_zero(recharge), requested);
    let left = wallet::at_least_zero(binary64_sum::difference(requested, first));
    let second = binary64_sum::lesser(wallet::at_least_zero(gift), left);
    let third = wallet::at_least_zero(binary64_sum::difference(left, second));
    reveal(is_amount);
    lemma_at_least_zero(cost, asked, k);
    lemma_at_least_zero(recharge, r, k);
    lemma_at_least_zero(gift, g, k);
    lemma_lesser(wallet::at_least_zero(recharge), requested, above_zero(r), c, k);
    lemma_difference(requested, first, c, from_recharge, k);
    lemma_at_least_zero(binary64_sum::difference(requested, first), rem, k);
    lemma_lesser(wallet::at_least_zero(gift), left, above_zero(g), rem, k);
    lemma_difference(left, second, rem, from_gift, k);
    lemma_at_least_zero(binary64_sum::difference(left, second), overdraft, k);
    lemma_difference(recharge, first, r, from_recharge, k);
    lemma_difference(
        binary64_sum::difference(recharge, first),
        third,
        r - from_recharge,
        overdraft,
        k,
    );
    lemma_difference(gift, second, g, from_gift, k);
    lemma_parts(r, g, c, from_recharge, from_gift, pow2(k) as int);
}

proof fn lemma_parts(r: int, g: int, c: int, fr: int, fg: int, q: int)
    ensures
        (r - fr - (c - fr - fg)) * q + (g - fg) * q == r * q + g * q - c * q,
{
    assert((r - fr - (c - fr - fg)) * q + (g - fg) * q == r * q + g * q - c * q)
        by (nonlinear_arith);
}

/// The number, or nothing where it is negative.
pub open spec fn above_zero(x: int) -> int {
    if x > 0 {
        x
    } else {
        0
    }
}

/// The amount is `x` times two to the `k`th smallest units.
#[verifier::opaque]
spec fn is_amount(a: Binary64, x: int, k: nat) -> bool {
    a.finite() && a.value() == x * pow2(k)
}

proof fn lemma_at_least_zero(a: Binary64, x: int, k: nat)
    requires
        is_amount(a, x, k),
    ensures
        is_amount(wallet::at_least_zero(a), above_zero(x), k),
{
    reveal(is_amount);
    lemma_pow2_pos(k);
    lemma_zero();
    lemma_product_sign(x, pow2(k) as int);
}

proof fn lemma_lesser(a: Binary64, b: Binary64, x: int, y: int, k: nat)
    requires
        is_amount(a, x, k),
        is_amount(b, y, k),
    ensures
        is_amount(
            binary64_sum::lesser(a, b),
            if x < y {
                x
            } else {
                y
            },
            k,
        ),
{
    reveal(is_amount);
    lemma_pow2_pos(k);
    lemma_product_order(x, y, pow2(k) as int);
    lemma_product_order(y, x, pow2(k) as int);
}

proof fn lemma_difference(a: Binary64, b: Binary64, x: int, y: int, k: nat)
    requires
        is_amount(a, x, k),
        is_amount(b, y, k),
        -0x20_0000_0000_0000 < x + y < 0x20_0000_0000_0000,
        -0x20_0000_0000_0000 < x - y < 0x20_0000_0000_0000,
        k <= 2045,
    ensures
        is_amount(binary64_sum::difference(a, b), x - y, k),
{
    reveal(is_amount);
    amount_laws::small_amounts_are_added_without_loss(a, b, x, y, k);
}

proof fn lemma_zero()
    ensures
        wallet::nothing().value() == 0,
        wallet::nothing().finite(),
        !wallet::nothing().undefined(),
{
    amount_laws::bits_are_read_as_ieee_754_says(wallet::nothing());
}

proof fn lemma_defined(x: Binary64)
    ensures
        x.finite() ==> !x.undefined(),
{
}

proof fn lemma_product_sign(x: int, q: int)
    requires
        q > 0,
    ensures
        x > 0 ==> x * q > 0,
        x < 0 ==> x * q < 0,
        x == 0 ==> x * q == 0,
{
    assert(x > 0 ==> x * q > 0) by (nonlinear_arith)
        requires
            q > 0,
    ;
    assert(x < 0 ==> x * q < 0) by (nonlinear_arith)
        requires
            q > 0,
    ;
}

proof fn lemma_product_order(x: int, y: int, q: int)
    requires
        q > 0,
    ensures
        x < y <==> x * q < y * q,
{
    assert(x < y ==> x * q < y * q) by (nonlinear_arith)
        requires
            q > 0,
    ;
    assert(x >= y ==> x * q >= y * q) by (nonlinear_arith)
        requires
            q > 0,
    ;
}

/// Charging a wallet takes the cost from its balances, unless it has no limit, and adds it to what the
/// wallet has consumed; who owns the wallet stays. A negative cost takes nothing.
pub proof fn a_charged_wallet_has_the_cost_less(
    before: StoredWalletSnapshot,
    cost: Binary64,
    r: int,
    g: int,
    c: int,
    t: int,
    k: nat,
)
    requires
        before.balance.finite(),
        before.gift_balance.finite(),
        before.total_consumed.finite(),
        cost.finite(),
        before.balance.value() == r * pow2(k),
        before.gift_balance.value() == g * pow2(k),
        before.total_consumed.value() == t * pow2(k),
        cost.value() == c * pow2(k),
        -0x4_0000_0000_0000 < r < 0x4_0000_0000_0000,
        -0x4_0000_0000_0000 < g < 0x4_0000_0000_0000,
        -0x4_0000_0000_0000 < t < 0x4_0000_0000_0000,
        0 <= c < 0x4_0000_0000_0000,
        k <= 2045,
    ensures
        ({
            let after = before.charged(cost);
            let unlimited = text::same_letters(before.limit_mode@, "unlimited"@);
            &&& after.id == before.id
            &&& after.user_id == before.user_id
            &&& after.api_key_id == before.api_key_id
            &&& after.limit_mode == before.limit_mode
            &&& after.total_consumed.value() == before.total_consumed.value() + cost.value()
            &&& unlimited ==> after.balance == before.balance && after.gift_balance
                == before.gift_balance
            &&& !unlimited ==> {
                &&& after.balance.value() + after.gift_balance.value() == before.balance.value()
                    + before.gift_balance.value() - cost.value()
                &&& g >= 0 ==> after.gift_balance.value() >= 0
                &&& r >= c ==> after.gift_balance.value() == before.gift_balance.value()
                &&& after.balance.value() < 0 && r >= 0 && g >= 0 ==> after.gift_balance.value()
                    == 0
            }
        }),
{
    lemma_pow2_pos(k);
    let q = pow2(k) as int;
    a_cost_is_taken_in_full(before.balance, before.gift_balance, cost, r, g, c, k);
    amount_laws::small_amounts_are_added_without_loss(before.total_consumed, cost, t, c, k);
    assert((t + c) * q == t * q + c * q) by (nonlinear_arith);
    let from_recharge = if r <= 0 {
        0
    } else if r < c {
        r
    } else {
        c
    };
    let from_gift = if g <= 0 {
        0
    } else if g < c - from_recharge {
        g
    } else {
        c - from_recharge
    };
    lemma_product_sign(g - from_gift, q);
    lemma_product_sign(r - from_recharge - (c - from_recharge - from_gift), q);
}

/// What a wallet has to spend without an overdraft are its balances together, of which a negative one
/// counts for nothing.
pub proof fn what_is_available_are_the_balances_together(
    recharge: Binary64,
    gift: Binary64,
    r: int,
    g: int,
    k: nat,
    available: Binary64,
)
    requires
        call_ensures(wallet::finite_wallet_available_usd, (recharge, gift), available),
        recharge.finite(),
        gift.finite(),
        recharge.value() == r * pow2(k),
        gift.value() == g * pow2(k),
        0 <= r < 0x4_0000_0000_0000,
        -0x4_0000_0000_0000 < g < 0x4_0000_0000_0000,
        k <= 2045,
    ensures
        available.value() == if g > 0 {
            recharge.value() + gift.value()
        } else {
            recharge.value()
        },
{
    lemma_pow2_pos(k);
    let q = pow2(k) as int;
    lemma_zero();
    lemma_product_sign(r, q);
    lemma_product_sign(g, q);
    let has_gift = if g > 0 {
        g
    } else {
        0
    };
    assert(0 * q == 0);
    amount_laws::small_amounts_are_added_without_loss(
        wallet::at_least_zero(recharge),
        wallet::at_least_zero(gift),
        r,
        has_gift,
        k,
    );
    assert((r + g) * q == r * q + g * q) by (nonlinear_arith);
}

/// A pending request that was completed or cancelled and for which a wallet pays is settled: that
/// wallet is charged the actual cost, never less than nothing, and no other changes. The books say
/// which wallet paid and what was in it before and after; the provider is credited the actual cost.
pub proof fn a_paid_request_is_settled(
    input: UsageSettlementInput,
    wallets: Entries<StoredWalletSnapshot>,
    providers: Entries<Binary64>,
    records: Entries<StoredUsageSettlement>,
    answer: Result<Option<StoredUsageSettlement>, DataLayerError>,
    wallets_then: Entries<StoredWalletSnapshot>,
    providers_then: Entries<Binary64>,
    records_then: Entries<StoredUsageSettlement>,
    other: Seq<char>,
)
    requires
        settlement::settles(
            input,
            wallets,
            providers,
            records,
            answer,
            wallets_then,
            providers_then,
            records_then,
        ),
        input.fault() is None,
        input.billing_status@ == "pending"@,
        input.status@ == "completed"@ || input.status@ == "cancelled"@,
        settlement::paying_wallet(wallets, input) is Some,
    ensures
        ({
            let at = settlement::paying_wallet(wallets, input)->0 as int;
            let before = wallets[at].1;
            let after = wallets_then[at].1;
            let cost = binary64_sum::greater(input.actual_total_cost_usd, Binary64 { bits: 0 });
            let record = answer->Ok_0->0;
            &&& answer is Ok
            &&& answer->Ok_0 is Some
            &&& wallets_then.len() == wallets.len()
            &&& after == before.charged(cost)
            &&& forall|i: int|
                0 <= i < wallets.len() && i != at ==> #[trigger] wallets_then[i] == wallets[i]
            &&& record.request_id@ == input.request_id@
            &&& record.billing_status@ == "settled"@
            &&& record.wallet_id is Some
            &&& record.wallet_id->0@ == before.id@
            &&& record.wallet_recharge_balance_before == Some(before.balance)
            &&& record.wallet_gift_balance_before == Some(before.gift_balance)
            &&& record.wallet_balance_before == Some(
                binary64_sum::sum(before.balance, before.gift_balance),
            )
            &&& record.wallet_recharge_balance_after == Some(after.balance)
            &&& record.wallet_gift_balance_after == Some(after.gift_balance)
            &&& record.wallet_balance_after == Some(
                binary64_sum::sum(after.balance, after.gift_balance),
            )
            &&& record.finalized_at_unix_secs == input.finalized_at_unix_secs
            &&& token_map::lookup(records_then, input.request_id@) == Some(record)
            &&& other != input.request_id@ ==> token_map::lookup(records_then, other)
                == token_map::lookup(records, other)
            &&& input.provider_id is None ==> record.provider_monthly_used_usd is None
                && providers_then == providers
            &&& input.provider_id is Some ==> {
                let used = match token_map::lookup(providers, input.provider_id->0@) {
                    Some(used) => used,
                    None => Binary64 { bits: 0 },
                };
                let total = binary64_sum::sum(used, input.actual_total_cost_usd);
                &&& record.provider_monthly_used_usd == Some(total)
                &&& token_map::lookup(providers_then, input.provider_id->0@) == Some(total)
                &&& other != input.provider_id->0@ ==> token_map::lookup(providers_then, other)
                    == token_map::lookup(providers, other)
            }
        }),
{
    the_key_pays_if_it_can_and_else_the_user(wallets, input);
    let record = answer->Ok_0->0;
    assert(record@.wallet_id is Some);
    assert(record@.billing_status == "settled"@);
    assert(record@.request_id == input.request_id@);
    token_map::a_stored_value_is_read_back(records, input.request_id@, record, other);
    if input.provider_id is Some {
        token_map::a_stored_value_is_read_back(
            providers,
            input.provider_id->0@,
            settlement::provider_total(providers, input.provider_id->0@, input),
            other,
        );
    }
}

/// A pending request that was completed or cancelled and for which no wallet pays is short of quota
/// exactly if it costs more than a hundred millionth of a dollar; no wallet changes, and the provider
/// is credited only if it is settled all the same.
pub proof fn an_unpaid_request_is_short_of_quota(
    input: UsageSettlementInput,
    wallets: Entries<StoredWalletSnapshot>,
    providers: Entries<Binary64>,
    records: Entries<StoredUsageSettlement>,
    answer: Result<Option<StoredUsageSettlement>, DataLayerError>,
    wallets_then: Entries<StoredWalletSnapshot>,
    providers_then: Entries<Binary64>,
    records_then: Entries<StoredUsageSettlement>,
)
    requires
        settlement::settles(
            input,
            wallets,
            providers,
            records,
            answer,
            wallets_then,
            providers_then,
            records_then,
        ),
        input.fault() is None,
        input.billing_status@ == "pending"@,
        input.status@ == "completed"@ || input.status@ == "cancelled"@,
        settlement::paying_wallet(wallets, input) is None,
    ensures
        ({
            let epsilon = Binary64 { bits: 0x3e45_798e_e230_8c3a };
            let short = input.actual_total_cost_usd.value() > epsilon.value();
            let record = answer->Ok_0->0;
            &&& answer is Ok
            &&& answer->Ok_0 is Some
            &&& wallets_then == wallets
            &&& record.request_id@ == input.request_id@
            &&& short ==> record.billing_status@ == "insufficient_quota"@
            &&& !short ==> record.billing_status@ == "settled"@
            &&& record.wallet_id is None
            &&& record.wallet_balance_before is None && record.wallet_balance_after is None
            &&& record.finalized_at_unix_secs == input.finalized_at_unix_secs
            &&& token_map::lookup(records_then, input.request_id@) == Some(record)
            &&& short || input.provider_id is None ==> providers_then == providers
                && record.provider_monthly_used_usd is None
            &&& !short && input.provider_id is Some ==> {
                let used = match token_map::lookup(providers, input.provider_id->0@) {
                    Some(used) => used,
                    None => Binary64 { bits: 0 },
                };
                let total = binary64_sum::sum(used, input.actual_total_cost_usd);
                &&& record.provider_monthly_used_usd == Some(total)
                &&& token_map::lookup(providers_then, input.provider_id->0@) == Some(total)
            }
        }),
{
    let record = answer->Ok_0->0;
    let epsilon = Binary64 { bits: 0x3e45_798e_e230_8c3a };
    a_settlement_is_valid_exactly_if_it_is_sound(input);
    lemma_zero();
    lemma_defined(input.actual_total_cost_usd);
    amount_laws::bits_are_read_as_ieee_754_says(epsilon);
    assert(epsilon.value() >= 0);
    let cost = wallet::at_least_zero(input.actual_total_cost_usd);
    assert(cost.value() > epsilon.value() <==> input.actual_total_cost_usd.value()
        > epsilon.value());
    reveal_strlit("settled");
    reveal_strlit("void");
    reveal_strlit("insufficient_quota");
    assert("settled"@.len() != "insufficient_quota"@.len());
    assert(record@.wallet_id is None);
    assert(record@.billing_status == settlement::final_status(wallets, input));
    token_map::a_stored_value_is_read_back(
        records,
        input.request_id@,
        record,
        input.request_id@,
    );
    if input.provider_id is Some {
        token_map::a_stored_value_is_read_back(
            providers,
            input.provider_id->0@,
            settlement::provider_total(providers, input.provider_id->0@, input),
            input.provider_id->0@,
        );
    }
}

/// A pending request with any other status is void: nothing is charged or credited, but the books keep
/// it.
pub proof fn a_request_of_another_status_is_void(
    input: UsageSettlementInput,
    wallets: Entries<StoredWalletSnapshot>,
    providers: Entries<Binary64>,
    records: Entries<StoredUsageSettlement>,
    answer: Result<Option<StoredUsageSettlement>, DataLayerError>,
    wallets_then: Entries<StoredWalletSnapshot>,
    providers_then: Entries<Binary64>,
    records_then: Entries<StoredUsageSettlement>,
)
    requires
        settlement::settles(
            input,
            wallets,
            providers,
            records,
            answer,
            wallets_then,
            providers_then,
            records_then,
        ),
        input.fault() is None,
        input.billing_status@ == "pending"@,
        input.status@ != "completed"@,
        input.status@ != "cancelled"@,
    ensures
        answer is Ok,
        answer->Ok_0 is Some,
        answer->Ok_0->0.billing_status@ == "void"@,
        answer->Ok_0->0.request_id@ == input.request_id@,
        answer->Ok_0->0.provider_monthly_used_usd is None,
        wallets_then == wallets,
        providers_then == providers,
        token_map::lookup(records_then, input.request_id@) == answer->Ok_0,
{
    settlement::void_usage_charges_no_one(wallets, providers, input);
    let record = answer->Ok_0->0;
    assert(record@.billing_status == "void"@);
    token_map::a_stored_value_is_read_back(
        records,
        input.request_id@,
        record,
        input.request_id@,
    );
}

/// A request that is not pending is answered with what the books say of it, or, where they say
/// nothing, with the status that it came with. Nothing changes. What is not valid is an error, and
/// changes nothing either.
pub proof fn what_is_not_pending_is_not_charged(
    input: UsageSettlementInput,
    wallets: Entries<StoredWalletSnapshot>,
    providers: Entries<Binary64>,
    records: Entries<StoredUsageSettlement>,
    answer: Result<Option<StoredUsageSettlement>, DataLayerError>,
    wallets_then: Entries<StoredWalletSnapshot>,
    providers_then: Entries<Binary64>,
    records_then: Entries<StoredUsageSettlement>,
)
    requires
        settlement::settles(
            input,
            wallets,
            providers,
            records,
            answer,
            wallets_then,
            providers_then,
            records_then,
        ),
        input.fault() is Some || input.billing_status@ != "pending"@,
    ensures
        wallets_then == wallets,
        providers_then == providers,
        records_then == records,
        input.fault() is Some <==> answer is Err,
        answer is Ok ==> {
            &&& answer->Ok_0 is Some
            &&& match token_map::lookup(records, input.request_id@) {
                Some(record) => answer->Ok_0->0 == record,
                None => {
                    let record = answer->Ok_0->0;
                    &&& record.request_id@ == input.request_id@
                    &&& record.billing_status@ == input.billing_status@
                    &&& record.wallet_id is None
                    &&& record.wallet_balance_before is None
                    &&& record.wallet_balance_after is None
                    &&& record.provider_monthly_used_usd is None
                    &&& record.finalized_at_unix_secs == input.finalized_at_unix_secs
                },
            }
        },
{
    if answer is Ok && token_map::lookup(records, input.request_id@) is None {
        assert(answer->Ok_0->0@.wallet_id is None);
    }
}

/// Of the wallets that a store is seeded with, the last one under each id is there.
pub proof fn the_last_wallet_under_an_id_stays(
    items: Seq<StoredWalletSnapshot>,
    wallets: Entries<StoredWalletSnapshot>,
    from: nat,
    id: Seq<char>,
)
    requires
        from <= items.len(),
    ensures
        ({
            let then = token_map::lookup(settlement::stored_wallets(wallets, items, from), id);
            ||| then == token_map::lookup(wallets, id) && forall|i: int|
                from <= i < items.len() ==> (#[trigger] items[i]).id@ != id
            ||| exists|i: int|
                #![trigger items[i]]
                from <= i < items.len() && items[i].id@ == id && then == Some(items[i]) && forall|
                    j: int,
                |
                    i < j < items.len() ==> (#[trigger] items[j]).id@ != id
        }),
    decreases items.len() - from,
{
    if from < items.len() {
        let item = items[from as int];
        let next = token_map::put(wallets, item.id@, item);
        token_map::a_stored_value_is_read_back(wallets, item.id@, item, id);
        the_last_wallet_under_an_id_stays(items, next, from + 1, id);
        let then = token_map::lookup(settlement::stored_wallets(wallets, items, from), id);
        if then == token_map::lookup(next, id) && forall|i: int|
            from + 1 <= i < items.len() ==> (#[trigger] items[i]).id@ != id {
            if item.id@ == id {
                assert(items[from as int].id@ == id);
            }
        }
    }
}

} // verus!
