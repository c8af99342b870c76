//! Wallets: how a cost is taken from a recharge balance and a gift balance.

use crate::binary64::Binary64;
use crate::binary64_sum;
use crate::text;
use vstd::prelude::*;
use vstd::string::*;

verus! {

/// The bits of a hundred millionth of a dollar. Costs up to there count as nothing.
pub const SETTLEMENT_EPSILON_USD_BITS: u64 = 0x3e45_798e_e230_8c3a;

/// Zero dollars.
pub open spec fn nothing() -> Binary64 {
    Binary64 { bits: 0 }
}

fn zero_usd() -> (r: Binary64)
    ensures
        r == nothing(),
{
    Binary64 { bits: 0 }
}

/// A wallet of a user or of an API key.
#[derive(Debug, PartialEq, Eq)]
pub struct StoredWalletSnapshot {
    pub id: String,
    pub user_id: Option<String>,
    pub api_key_id: Option<String>,
    pub balance: Binary64,
    pub gift_balance: Binary64,
    pub limit_mode: String,
    pub total_consumed: Binary64,
}

/// What a cost takes from each balance of a wallet.
#[derive(Debug, Clone, Copy, PartialEq, Eq, Structural)]
pub struct WalletDebitPlan {
    pub recharge_deduction: Binary64,
    pub gift_deduction: Binary64,
    pub recharge_overdraft: Binary64,
}

/// The amount, or zero where it is negative or undefined.
pub open spec fn at_least_zero(amount: Binary64) -> Binary64 {
    binary64_sum::greater(amount, nothing())
}

/// How a cost is taken: from the recharge balance first, from the gift balance next, and what is
/// left overdraws the recharge balance.
pub open spec fn debit(
    recharge_balance: Binary64,
    gift_balance: Binary64,
    requested_usd: Binary64,
) -> WalletDebitPlan {
    let requested = at_least_zero(requested_usd);
    let from_recharge = binary64_sum::lesser(at_least_zero(recharge_balance), requested);
    let remaining = at_least_zero(binary64_sum::difference(requested, from_recharge));
    let from_gift = binary64_sum::lesser(at_least_zero(gift_balance), remaining);
    WalletDebitPlan {
        recharge_deduction: from_recharge,
        gift_deduction: from_gift,
        recharge_overdraft: at_least_zero(binary64_sum::difference(remaining, from_gift)),
    }
}

impl WalletDebitPlan {
    /// The recharge balance after the debit.
    pub open spec fn recharge_after(self, recharge_balance: Binary64) -> Binary64 {
        binary64_sum::difference(
            binary64_sum::difference(recharge_balance, self.recharge_deduction),
            self.recharge_overdraft,
        )
    }

    /// The gift balance after the debit.
    pub open spec fn gift_after(self, gift_balance: Binary64) -> Binary64 {
        binary64_sum::difference(gift_balance, self.gift_deduction)
    }

    /// The recharge and gift balances after the debit.
    pub fn after_balances(self, recharge_balance: Binary64, gift_balance: Binary64) -> (r: (
        Binary64,
        Binary64,
    ))
        ensures
            r.0 == self.recharge_after(recharge_balance),
            r.1 == self.gift_after(gift_balance),
    {
        (
            recharge_balance.minus(self.recharge_deduction).minus(self.recharge_overdraft),
            gift_balance.minus(self.gift_deduction),
        )
    }
}

/// What a wallet has to spend without an overdraft.
pub fn finite_wallet_available_usd(recharge_balance: Binary64, gift_balance: Binary64) -> (r:
    Binary64)
    ensures
        r == binary64_sum::sum(at_least_zero(recharge_balance), at_least_zero(gift_balance)),
{
    recharge_balance.max(zero_usd()).plus(gift_balance.max(zero_usd()))
}

/// How a cost is taken from the balances of a wallet.
pub fn plan_finite_wallet_debit(
    recharge_balance: Binary64,
    gift_balance: Binary64,
    requested_usd: Binary64,
) -> (r: WalletDebitPlan)
    ensures
        r == debit(recharge_balance, gift_balance, requested_usd),
{
    let requested_usd = requested_usd.max(zero_usd());
    let recharge_deduction = recharge_balance.max(zero_usd()).min(requested_usd);
    let after_recharge_remaining = requested_usd.minus(recharge_deduction).max(zero_usd());
    let gift_deduction = gift_balance.max(zero_usd()).min(after_recharge_remaining);
    let recharge_overdraft = after_recharge_remaining.minus(gift_deduction).max(zero_usd());
    WalletDebitPlan { recharge_deduction, gift_deduction, recharge_overdraft }
}

impl StoredWalletSnapshot {
    /// The wallet is charged without a limit.
    pub open spec fn unlimited(self) -> bool {
        text::same_letters(self.limit_mode@, "unlimited"@)
    }

    /// The wallet after a cost was charged. A wallet without a limit keeps its balances.
    pub open spec fn charged(self, cost_usd: Binary64) -> StoredWalletSnapshot {
        let plan = debit(self.balance, self.gift_balance, cost_usd);
        StoredWalletSnapshot {
            balance: if self.unlimited() {
                self.balance
            } else {
                plan.recharge_after(self.balance)
            },
            gift_balance: if self.unlimited() {
                self.gift_balance
            } else {
                plan.gift_after(self.gift_balance)
            },
            total_consumed: binary64_sum::sum(self.total_consumed, cost_usd),
            ..self
        }
    }

    /// Charges a cost.
    pub fn charge(&mut self, cost_usd: Binary64)
        ensures
            *final(self) == old(self).charged(cost_usd),
    {
        if !text::same_ignoring_ascii_case(self.limit_mode.as_str(), "unlimited") {
            let plan = plan_finite_wallet_debit(self.balance, self.gift_balance, cost_usd);
            let (balance, gift_balance) = plan.after_balances(self.balance, self.gift_balance);
            self.balance = balance;
            self.gift_balance = gift_balance;
        }
        self.total_consumed = self.total_consumed.plus(cost_usd);
    }
}

impl Clone for StoredWalletSnapshot {
    fn clone(&self) -> (r: Self)
        ensures
            r == *self,
    {
        StoredWalletSnapshot {
            id: self.id.clone(),
            user_id: text::copy_of(&self.user_id),
            api_key_id: text::copy_of(&self.api_key_id),
            balance: self.balance,
            gift_balance: self.gift_balance,
            limit_mode: self.limit_mode.clone(),
            total_consumed: self.total_consumed,
        }
    }
}

proof fn lemma_zero()
    ensures
        nothing().value() == 0,
        !nothing().undefined(),
        nothing().finite(),
{
    assert(nothing().magnitude() == 0) by {
        assert(nothing().significand() == 0);
        assert(0 * vstd::arithmetic::power2::pow2(nothing().shift()) == 0) by (nonlinear_arith);
    }
}

pub(crate) proof fn lemma_at_least_zero(amount: Binary64)
    ensures
        at_least_zero(amount).value() >= 0,
        !at_least_zero(amount).undefined(),
        !amount.undefined() ==> at_least_zero(amount).value() == if amount.value() > 0 {
            amount.value()
        } else {
            0
        },
{
    lemma_zero();
}

/// Nothing is left of an amount after it was taken away.
proof fn lemma_nothing_left(a: Binary64, b: Binary64)
    requires
        !a.undefined(),
        !b.undefined(),
        a.value() == b.value(),
    ensures
        at_least_zero(binary64_sum::difference(a, b)).value() == 0,
{
    lemma_zero();
    binary64_sum::an_amount_less_itself_is_zero(a, b);
}

/// A debit takes nothing negative, and from each balance no more than is there.
pub proof fn a_debit_takes_no_more_than_is_there(
    recharge_balance: Binary64,
    gift_balance: Binary64,
    requested_usd: Binary64,
)
    requires
        !recharge_balance.undefined(),
        !gift_balance.undefined(),
        !requested_usd.undefined(),
    ensures
        ({
            let plan = debit(recharge_balance, gift_balance, requested_usd);
            let recharge = at_least_zero(recharge_balance).value();
            let gift = at_least_zero(gift_balance).value();
            let requested = at_least_zero(requested_usd).value();
            &&& 0 <= plan.recharge_deduction.value() <= recharge
            &&& plan.recharge_deduction.value() <= requested
            &&& 0 <= plan.gift_deduction.value() <= gift
            &&& 0 <= plan.recharge_overdraft.value()
        }),
{
    lemma_at_least_zero(recharge_balance);
    lemma_at_least_zero(gift_balance);
    lemma_at_least_zero(requested_usd);
    let requested = at_least_zero(requested_usd);
    let from_recharge = binary64_sum::lesser(at_least_zero(recharge_balance), requested);
    let left = binary64_sum::difference(requested, from_recharge);
    lemma_at_least_zero(left);
    let remaining = at_least_zero(left);
    let from_gift = binary64_sum::lesser(at_least_zero(gift_balance), remaining);
    lemma_at_least_zero(binary64_sum::difference(remaining, from_gift));
}

/// The gift balance is touched only once the recharge balance does not cover the cost, and the
/// recharge balance is overdrawn only once the gift balance is used up too.
pub proof fn a_debit_takes_recharge_then_gift_then_overdraft(
    recharge_balance: Binary64,
    gift_balance: Binary64,
    requested_usd: Binary64,
)
    requires
        !recharge_balance.undefined(),
        !gift_balance.undefined(),
        !requested_usd.undefined(),
    ensures
        ({
            let plan = debit(recharge_balance, gift_balance, requested_usd);
            let recharge = at_least_zero(recharge_balance).value();
            let gift = at_least_zero(gift_balance).value();
            let requested = at_least_zero(requested_usd).value();
            &&& plan.gift_deduction.value() > 0 ==> plan.recharge_deduction.value() == recharge
                && recharge < requested
            &&& plan.recharge_overdraft.value() > 0 ==> plan.gift_deduction.value() == gift
                && recharge < requested
        }),
{
    lemma_at_least_zero(recharge_balance);
    lemma_at_least_zero(gift_balance);
    lemma_at_least_zero(requested_usd);
    let requested = at_least_zero(requested_usd);
    let from_recharge = binary64_sum::lesser(at_least_zero(recharge_balance), requested);
    let left = binary64_sum::difference(requested, from_recharge);
    lemma_at_least_zero(left);
    let remaining = at_least_zero(left);
    let from_gift = binary64_sum::lesser(at_least_zero(gift_balance), remaining);
    lemma_at_least_zero(binary64_sum::difference(remaining, from_gift));
    if from_recharge.value() == requested.value() {
        lemma_nothing_left(requested, from_recharge);
        assert(from_gift.value() == 0);
    }
    if from_gift.value() == remaining.value() {
        lemma_nothing_left(remaining, from_gift);
    }
}

} // verus!
