//! Settling usage: who pays for a request, and what the books say afterwards.

use crate::binary64::Binary64;
use crate::binary64_sum;
use crate::error;
use crate::error::{DataLayerError, DataLayerFault};
use crate::text;
use crate::token_map;
use crate::token_map::{Entries, TokenMap};
use crate::wallet;
use crate::wallet::{StoredWalletSnapshot, SETTLEMENT_EPSILON_USD_BITS};
use vstd::prelude::*;
use vstd::string::*;

verus! {

/// A request whose usage is to be settled.
#[derive(Debug, Clone, PartialEq, Eq)]
pub struct UsageSettlementInput {
    pub request_id: String,
    pub user_id: Option<String>,
    pub api_key_id: Option<String>,
    pub api_key_is_standalone: bool,
    pub provider_id: Option<String>,
    pub status: String,
    pub billing_status: String,
    pub total_cost_usd: Binary64,
    pub actual_total_cost_usd: Binary64,
    pub finalized_at_unix_secs: Option<u64>,
}

impl UsageSettlementInput {
    /// What is wrong with the input.
    pub open spec fn fault(self) -> Option<DataLayerFault> {
        if text::trimmed(self.request_id@).len() == 0 {
            Some(DataLayerFault::InvalidInput("settlement request_id cannot be empty"@))
        } else if text::trimmed(self.status@).len() == 0 || text::trimmed(
            self.billing_status@,
        ).len() == 0 {
            Some(DataLayerFault::InvalidInput("settlement status cannot be empty"@))
        } else if !self.total_cost_usd.finite() || !self.actual_total_cost_usd.finite() {
            Some(DataLayerFault::InvalidInput("settlement cost must be finite"@))
        } else {
            None
        }
    }

    /// Checks the input.
    pub fn validate(&self) -> (r: Result<(), DataLayerError>)
        ensures
            error::fails_with(r, self.fault()),
    {
        if text::trim(self.request_id.as_str()).is_empty() {
            return Err(error::invalid_input("settlement request_id cannot be empty"));
        }
        if text::trim(self.status.as_str()).is_empty() || text::trim(
            self.billing_status.as_str(),
        ).is_empty() {
            return Err(error::invalid_input("settlement status cannot be empty"));
        }
        if !self.total_cost_usd.is_finite() || !self.actual_total_cost_usd.is_finite() {
            return Err(error::invalid_input("settlement cost must be finite"));
        }
        Ok(())
    }
}

/// The usage is billed: it was completed or cancelled.
pub open spec fn is_billed(status: Seq<char>) -> bool {
    status == "completed"@ || status == "cancelled"@
}

/// The billing status of a usage status.
pub open spec fn billing_status_of(status: Seq<char>) -> Seq<char> {
    if is_billed(status) {
        "settled"@
    } else {
        "void"@
    }
}

/// The billing status of a usage status.
pub fn settlement_billing_status_for_usage_status(status: &str) -> (r: &'static str)
    ensures
        r@ == billing_status_of(status@),
{
    if text::same(status, "completed") || text::same(status, "cancelled") {
        "settled"
    } else {
        "void"
    }
}

/// What is charged for the usage: the actual cost, never less than nothing.
pub fn settlement_billable_cost_usd(input: &UsageSettlementInput) -> (r: Binary64)
    ensures
        r == wallet::at_least_zero(input.actual_total_cost_usd),
{
    input.actual_total_cost_usd.max(Binary64 { bits: 0 })
}

/// What the books say of a settled request.
#[derive(Debug, PartialEq, Eq)]
pub struct StoredUsageSettlement {
    pub request_id: String,
    pub wallet_id: Option<String>,
    pub billing_status: String,
    pub wallet_balance_before: Option<Binary64>,
    pub wallet_balance_after: Option<Binary64>,
    pub wallet_recharge_balance_before: Option<Binary64>,
    pub wallet_recharge_balance_after: Option<Binary64>,
    pub wallet_gift_balance_before: Option<Binary64>,
    pub wallet_gift_balance_after: Option<Binary64>,
    pub provider_monthly_used_usd: Option<Binary64>,
    pub finalized_at_unix_secs: Option<u64>,
}

/// A settlement by its texts and amounts.
pub struct SettlementRecord {
    pub request_id: Seq<char>,
    pub wallet_id: Option<Seq<char>>,
    pub billing_status: Seq<char>,
    pub wallet_balance_before: Option<Binary64>,
    pub wallet_balance_after: Option<Binary64>,
    pub wallet_recharge_balance_before: Option<Binary64>,
    pub wallet_recharge_balance_after: Option<Binary64>,
    pub wallet_gift_balance_before: Option<Binary64>,
    pub wallet_gift_balance_after: Option<Binary64>,
    pub provider_monthly_used_usd: Option<Binary64>,
    pub finalized_at_unix_secs: Option<u64>,
}

impl View for StoredUsageSettlement {
    type V = SettlementRecord;

    open spec fn view(&self) -> SettlementRecord {
        SettlementRecord {
            request_id: self.request_id@,
            wallet_id: text::opt_string(self.wallet_id),
            billing_status: self.billing_status@,
            wallet_balance_before: self.wallet_balance_before,
            wallet_balance_after: self.wallet_balance_after,
            wallet_recharge_balance_before: self.wallet_recharge_balance_before,
            wallet_recharge_balance_after: self.wallet_recharge_balance_after,
            wallet_gift_balance_before: self.wallet_gift_balance_before,
            wallet_gift_balance_after: self.wallet_gift_balance_after,
            provider_monthly_used_usd: self.provider_monthly_used_usd,
            finalized_at_unix_secs: self.finalized_at_unix_secs,
        }
    }
}

impl Clone for StoredUsageSettlement {
    fn clone(&self) -> (r: Self)
        ensures
            r == *self,
    {
        StoredUsageSettlement {
            request_id: self.request_id.clone(),
            wallet_id: text::copy_of(&self.wallet_id),
            billing_status: self.billing_status.clone(),
            wallet_balance_before: self.wallet_balance_before,
            wallet_balance_after: self.wallet_balance_after,
            wallet_recharge_balance_before: self.wallet_recharge_balance_before,
            wallet_recharge_balance_after: self.wallet_recharge_balance_after,
            wallet_gift_balance_before: self.wallet_gift_balance_before,
            wallet_gift_balance_after: self.wallet_gift_balance_after,
            provider_monthly_used_usd: self.provider_monthly_used_usd,
            finalized_at_unix_secs: self.finalized_at_unix_secs,
        }
    }
}

/// A record that names no wallet and no amounts.
pub open spec fn bare_record(
    request_id: Seq<char>,
    billing_status: Seq<char>,
    finalized_at: Option<u64>,
) -> SettlementRecord {
    SettlementRecord {
        request_id,
        wallet_id: None,
        billing_status,
        wallet_balance_before: None,
        wallet_balance_after: None,
        wallet_recharge_balance_before: None,
        wallet_recharge_balance_after: None,
        wallet_gift_balance_before: None,
        wallet_gift_balance_after: None,
        provider_monthly_used_usd: None,
        finalized_at_unix_secs: finalized_at,
    }
}

fn bare_settlement(
    request_id: String,
    billing_status: String,
    finalized_at_unix_secs: Option<u64>,
) -> (r: StoredUsageSettlement)
    ensures
        r@ == bare_record(request_id@, billing_status@, finalized_at_unix_secs),
{
    StoredUsageSettlement {
        request_id,
        wallet_id: None,
        billing_status,
        wallet_balance_before: None,
        wallet_balance_after: None,
        wallet_recharge_balance_before: None,
        wallet_recharge_balance_after: None,
        wallet_gift_balance_before: None,
        wallet_gift_balance_after: None,
        provider_monthly_used_usd: None,
        finalized_at_unix_secs,
    }
}

/// Every wallet stands under its own id.
pub open spec fn under_own_id(wallets: Entries<StoredWalletSnapshot>) -> bool {
    forall|i: int| 0 <= i < wallets.len() ==> #[trigger] wallets[i].1.id@ == wallets[i].0
}

/// The first wallet from position `from` on that belongs to an API key.
pub open spec fn wallet_of_key(
    wallets: Entries<StoredWalletSnapshot>,
    key: Seq<char>,
    from: nat,
) -> Option<nat>
    decreases wallets.len() - from,
{
    if from >= wallets.len() {
        None
    } else if text::opt_string(wallets[from as int].1.api_key_id) == Some(key) {
        Some(from)
    } else {
        wallet_of_key(wallets, key, from + 1)
    }
}

/// The first wallet from position `from` on that belongs to a user.
pub open spec fn wallet_of_user(
    wallets: Entries<StoredWalletSnapshot>,
    user: Seq<char>,
    from: nat,
) -> Option<nat>
    decreases wallets.len() - from,
{
    if from >= wallets.len() {
        None
    } else if text::opt_string(wallets[from as int].1.user_id) == Some(user) {
        Some(from)
    } else {
        wallet_of_user(wallets, user, from + 1)
    }
}

/// The wallet that pays for a request: that of its API key, else, unless the key stands alone, that
/// of its user.
pub open spec fn paying_wallet(
    wallets: Entries<StoredWalletSnapshot>,
    input: UsageSettlementInput,
) -> Option<nat> {
    let of_key = match input.api_key_id {
        Some(key) => wallet_of_key(wallets, key@, 0),
        None => None,
    };
    if of_key is Some || input.api_key_is_standalone {
        of_key
    } else {
        match input.user_id {
            Some(user) => wallet_of_user(wallets, user@, 0),
            None => None,
        }
    }
}

/// How the request is billed in the end: usage that costs something and that no wallet pays for is
/// short of quota.
pub open spec fn final_status(
    wallets: Entries<StoredWalletSnapshot>,
    input: UsageSettlementInput,
) -> Seq<char> {
    let cost = wallet::at_least_zero(input.actual_total_cost_usd);
    let epsilon = Binary64 { bits: SETTLEMENT_EPSILON_USD_BITS };
    if is_billed(input.status@) && paying_wallet(wallets, input) is None && cost.value()
        > epsilon.value() {
        "insufficient_quota"@
    } else {
        billing_status_of(input.status@)
    }
}

/// The request ends as settled.
pub open spec fn ends_settled(
    wallets: Entries<StoredWalletSnapshot>,
    input: UsageSettlementInput,
) -> bool {
    is_billed(input.status@) && final_status(wallets, input) == billing_status_of(input.status@)
}

/// The paying wallet after the settlement.
pub open spec fn wallet_after(
    wallet: StoredWalletSnapshot,
    input: UsageSettlementInput,
) -> StoredWalletSnapshot {
    if is_billed(input.status@) {
        wallet.charged(wallet::at_least_zero(input.actual_total_cost_usd))
    } else {
        wallet
    }
}

/// The wallets after the settlement.
pub open spec fn wallets_after(
    wallets: Entries<StoredWalletSnapshot>,
    input: UsageSettlementInput,
) -> Entries<StoredWalletSnapshot> {
    match paying_wallet(wallets, input) {
        Some(at) => wallets.update(
            at as int,
            (wallets[at as int].0, wallet_after(wallets[at as int].1, input)),
        ),
        None => wallets,
    }
}

/// What a provider was used for this month, after the settlement.
pub open spec fn provider_total(
    providers: Entries<Binary64>,
    provider: Seq<char>,
    input: UsageSettlementInput,
) -> Binary64 {
    binary64_sum::sum(
        match token_map::lookup(providers, provider) {
            Some(used) => used,
            None => wallet::nothing(),
        },
        input.actual_total_cost_usd,
    )
}

/// What the providers were used for this month, after the settlement.
pub open spec fn providers_after(
    wallets: Entries<StoredWalletSnapshot>,
    providers: Entries<Binary64>,
    input: UsageSettlementInput,
) -> Entries<Binary64> {
    if ends_settled(wallets, input) && input.provider_id is Some {
        token_map::put(
            providers,
            input.provider_id->0@,
            provider_total(providers, input.provider_id->0@, input),
        )
    } else {
        providers
    }
}

/// What the books say of a request that was pending.
pub open spec fn record_of(
    wallets: Entries<StoredWalletSnapshot>,
    providers: Entries<Binary64>,
    input: UsageSettlementInput,
) -> SettlementRecord {
    let bare = bare_record(
        input.request_id@,
        final_status(wallets, input),
        input.finalized_at_unix_secs,
    );
    let with_wallet = match paying_wallet(wallets, input) {
        Some(at) => {
            let before = wallets[at as int].1;
            let after = wallet_after(before, input);
            SettlementRecord {
                wallet_id: Some(before.id@),
                wallet_balance_before: Some(
                    binary64_sum::sum(before.balance, before.gift_balance),
                ),
                wallet_recharge_balance_before: Some(before.balance),
                wallet_gift_balance_before: Some(before.gift_balance),
                wallet_recharge_balance_after: Some(after.balance),
                wallet_gift_balance_after: Some(after.gift_balance),
                wallet_balance_after: Some(binary64_sum::sum(after.balance, after.gift_balance)),
                ..bare
            }
        },
        None => bare,
    };
    SettlementRecord {
        provider_monthly_used_usd: if ends_settled(wallets, input) && input.provider_id is Some {
            Some(provider_total(providers, input.provider_id->0@, input))
        } else {
            None
        },
        ..with_wallet
    }
}

/// The wallets of the in-memory store, by id.
#[derive(Debug)]
pub struct InMemoryWalletRepository {
    wallets: TokenMap<StoredWalletSnapshot>,
}

impl View for InMemoryWalletRepository {
    type V = Entries<StoredWalletSnapshot>;

    closed spec fn view(&self) -> Entries<StoredWalletSnapshot> {
        self.wallets@
    }
}

/// The wallets after all of `items` from position `from` on were stored in turn.
pub open spec fn stored_wallets(
    wallets: Entries<StoredWalletSnapshot>,
    items: Seq<StoredWalletSnapshot>,
    from: nat,
) -> Entries<StoredWalletSnapshot>
    decreases items.len() - from,
{
    if from >= items.len() {
        wallets
    } else {
        stored_wallets(
            token_map::put(wallets, items[from as int].id@, items[from as int]),
            items,
            from + 1,
        )
    }
}

proof fn lemma_put_under_own_id(
    wallets: Entries<StoredWalletSnapshot>,
    wallet: StoredWalletSnapshot,
)
    requires
        under_own_id(wallets),
    ensures
        under_own_id(token_map::put(wallets, wallet.id@, wallet)),
    decreases wallets.len(),
{
    if wallets.len() > 0 {
        let rest = wallets.drop_first();
        assert forall|i: int| 0 <= i < rest.len() implies #[trigger] rest[i].1.id@
            == rest[i].0 by {
            assert(wallets[i + 1].1.id@ == wallets[i + 1].0);
        }
        lemma_put_under_own_id(rest, wallet);
    }
}

impl InMemoryWalletRepository {
    /// The ids are in order, and each wallet stands under its own.
    pub open spec fn wf(&self) -> bool {
        token_map::in_key_order(self@) && under_own_id(self@)
    }

    /// A store of wallets. Of wallets with one id the last one stays.
    pub fn seeded(items: Vec<StoredWalletSnapshot>) -> (r: Self)
        ensures
            r.wf(),
            r@ == stored_wallets(Entries::<StoredWalletSnapshot>::empty(), items@, 0),
    {
        let mut wallets: TokenMap<StoredWalletSnapshot> = TokenMap::new();
        let mut at: usize = 0;
        while at < items.len()
            invariant
                at <= items@.len(),
                wallets.wf(),
                under_own_id(wallets@),
                stored_wallets(Entries::<StoredWalletSnapshot>::empty(), items@, 0)
                    == stored_wallets(wallets@, items@, at as nat),
            decreases items@.len() - at,
        {
            let item = items[at].clone();
            proof {
                lemma_put_under_own_id(wallets@, item);
            }
            wallets.insert(item.id.clone(), item);
            at += 1;
        }
        InMemoryWalletRepository { wallets }
    }

    /// The wallet with an id.
    pub fn get(&self, id: &str) -> (r: Option<&StoredWalletSnapshot>)
        requires
            self.wf(),
        ensures
            match r {
                Some(wallet) => token_map::lookup(self@, id@) == Some(*wallet),
                None => token_map::lookup(self@, id@) is None,
            },
    {
        self.wallets.get(id)
    }

    fn find_of_key(&self, key: &str) -> (r: Option<usize>)
        ensures
            match r {
                Some(at) => at < self@.len() && wallet_of_key(self@, key@, 0) == Some(at as nat),
                None => wallet_of_key(self@, key@, 0) is None,
            },
    {
        let mut at: usize = 0;
        while at < self.wallets.len()
            invariant
                at <= self@.len(),
                self@ == self.wallets@,
                wallet_of_key(self@, key@, 0) == wallet_of_key(self@, key@, at as nat),
            decreases self@.len() - at,
        {
            if let Some(id) = &self.wallets.value_at(at).api_key_id {
                if text::same(id.as_str(), key) {
                    return Some(at);
                }
            }
            at += 1;
        }
        None
    }

    fn find_of_user(&self, user: &str) -> (r: Option<usize>)
        ensures
            match r {
                Some(at) => at < self@.len() && wallet_of_user(self@, user@, 0) == Some(
                    at as nat,
                ),
                None => wallet_of_user(self@, user@, 0) is None,
            },
    {
        let mut at: usize = 0;
        while at < self.wallets.len()
            invariant
                at <= self@.len(),
                self@ == self.wallets@,
                wallet_of_user(self@, user@, 0) == wallet_of_user(self@, user@, at as nat),
            decreases self@.len() - at,
        {
            if let Some(id) = &self.wallets.value_at(at).user_id {
                if text::same(id.as_str(), user) {
                    return Some(at);
                }
            }
            at += 1;
        }
        None
    }

    fn find_paying(&self, input: &UsageSettlementInput) -> (r: Option<usize>)
        ensures
            match r {
                Some(at) => at < self@.len() && paying_wallet(self@, *input) == Some(at as nat),
                None => paying_wallet(self@, *input) is None,
            },
    {
        if let Some(key) = &input.api_key_id {
            if let Some(at) = self.find_of_key(key.as_str()) {
                return Some(at);
            }
        }
        if input.api_key_is_standalone {
            return None;
        }
        match &input.user_id {
            Some(user) => self.find_of_user(user.as_str()),
            None => None,
        }
    }

    /// Takes the cost of a request from the wallet that pays for it, and says what the books say of
    /// it, but for the provider.
    pub fn settle(&mut self, input: &UsageSettlementInput) -> (r: StoredUsageSettlement)
        requires
            old(self).wf(),
        ensures
            final(self).wf(),
            final(self)@ == wallets_after(old(self)@, *input),
            r@ == (SettlementRecord {
                provider_monthly_used_usd: None,
                ..record_of(old(self)@, Entries::<Binary64>::empty(), *input)
            }),
    {
        let billed = text::same(input.status.as_str(), "completed") || text::same(
            input.status.as_str(),
            "cancelled",
        );
        let cost = settlement_billable_cost_usd(input);
        match self.find_paying(input) {
            Some(at) => {
                let ghost before = self@;
                let mut paying = self.wallets.value_at(at).clone();
                let mut settlement = bare_settlement(
                    input.request_id.clone(),
                    settlement_billing_status_for_usage_status(input.status.as_str()).to_string(),
                    input.finalized_at_unix_secs,
                );
                settlement.wallet_id = Some(paying.id.clone());
                settlement.wallet_balance_before = Some(paying.balance.plus(paying.gift_balance));
                settlement.wallet_recharge_balance_before = Some(paying.balance);
                settlement.wallet_gift_balance_before = Some(paying.gift_balance);
                if billed {
                    paying.charge(cost);
                }
                settlement.wallet_recharge_balance_after = Some(paying.balance);
                settlement.wallet_gift_balance_after = Some(paying.gift_balance);
                settlement.wallet_balance_after = Some(paying.balance.plus(paying.gift_balance));
                proof {
                    assert(before[at as int].1.id@ == before[at as int].0);
                }
                self.wallets.replace_at(at, paying);
                proof {
                    assert forall|i: int| 0 <= i < self@.len() implies #[trigger] self@[i].1.id@
                        == self@[i].0 by {
                        assert(before[i].1.id@ == before[i].0);
                    }
                }
                settlement
            },
            None => {
                let status = if billed && cost.exceeds(
                    Binary64 { bits: SETTLEMENT_EPSILON_USD_BITS },
                ) {
                    "insufficient_quota".to_string()
                } else {
                    settlement_billing_status_for_usage_status(input.status.as_str()).to_string()
                };
                bare_settlement(input.request_id.clone(), status, input.finalized_at_unix_secs)
            },
        }
    }
}

/// The books: what providers were used for, and the settlements.
#[derive(Debug)]
pub struct SettlementBooks {
    provider_monthly_used: TokenMap<Binary64>,
    settlements: TokenMap<StoredUsageSettlement>,
}

impl SettlementBooks {
    /// What the providers were used for this month.
    pub closed spec fn providers(&self) -> Entries<Binary64> {
        self.provider_monthly_used@
    }

    /// The settlements, by the request of each.
    pub closed spec fn records(&self) -> Entries<StoredUsageSettlement> {
        self.settlements@
    }

    /// The ids are in order, each there once.
    pub open spec fn wf(&self) -> bool {
        token_map::in_key_order(self.providers()) && token_map::in_key_order(self.records())
    }

    /// Books without entries.
    pub fn new() -> (r: Self)
        ensures
            r.wf(),
            r.providers() == Entries::<Binary64>::empty(),
            r.records() == Entries::<StoredUsageSettlement>::empty(),
    {
        SettlementBooks { provider_monthly_used: TokenMap::new(), settlements: TokenMap::new() }
    }

    /// Settles the usage of a request against the wallets. A request that is not pending any more
    /// is answered with what the books say of it and changes nothing.
    pub fn settle_usage(
        &mut self,
        wallets: &mut InMemoryWalletRepository,
        input: UsageSettlementInput,
    ) -> (r: Result<Option<StoredUsageSettlement>, DataLayerError>)
        requires
            old(self).wf(),
            old(wallets).wf(),
        ensures
            final(self).wf(),
            final(wallets).wf(),
            settles(
                input,
                old(wallets)@,
                old(self).providers(),
                old(self).records(),
                r,
                final(wallets)@,
                final(self).providers(),
                final(self).records(),
            ),
    {
        input.validate()?;
        if !text::same(input.billing_status.as_str(), "pending") {
            return match self.settlements.get(input.request_id.as_str()) {
                Some(existing) => Ok(Some(existing.clone())),
                None => Ok(
                    Some(
                        bare_settlement(
                            input.request_id,
                            input.billing_status,
                            input.finalized_at_unix_secs,
                        ),
                    ),
                ),
            };
        }
        let ghost wallets_before = wallets@;
        let mut settlement = wallets.settle(&input);
        proof {
            reveal_strlit("settled");
            reveal_strlit("void");
            reveal_strlit("insufficient_quota");
            assert("settled"@.len() != "void"@.len());
            assert("settled"@.len() != "insufficient_quota"@.len());
        }
        if text::same(settlement.billing_status.as_str(), "settled") {
            if let Some(provider_id) = &input.provider_id {
                let used = match self.provider_monthly_used.get(provider_id.as_str()) {
                    Some(used) => *used,
                    None => Binary64 { bits: 0 },
                };
                let total = used.plus(input.actual_total_cost_usd);
                self.provider_monthly_used.insert(provider_id.clone(), total);
                settlement.provider_monthly_used_usd = Some(total);
            }
        }
        self.settlements.insert(input.request_id, settlement.clone());
        Ok(Some(settlement))
    }
}

/// What settling a request comes to: the answer, and the wallets, providers and settlements after
/// it.
pub open spec fn settles(
    input: UsageSettlementInput,
    wallets: Entries<StoredWalletSnapshot>,
    providers: Entries<Binary64>,
    records: Entries<StoredUsageSettlement>,
    answer: Result<Option<StoredUsageSettlement>, DataLayerError>,
    wallets_then: Entries<StoredWalletSnapshot>,
    providers_then: Entries<Binary64>,
    records_then: Entries<StoredUsageSettlement>,
) -> bool {
    &&& error::fails_with(answer, input.fault())
    &&& answer is Ok ==> answer->Ok_0 is Some
    &&& if input.fault() is Some || input.billing_status@ != "pending"@ {
        &&& wallets_then == wallets
        &&& providers_then == providers
        &&& records_then == records
        &&& answer is Ok ==> match token_map::lookup(records, input.request_id@) {
            Some(existing) => answer->Ok_0->0 == existing,
            None => answer->Ok_0->0@ == bare_record(
                input.request_id@,
                input.billing_status@,
                input.finalized_at_unix_secs,
            ),
        }
    } else {
        &&& wallets_then == wallets_after(wallets, input)
        &&& providers_then == providers_after(wallets, providers, input)
        &&& answer->Ok_0->0@ == record_of(wallets, providers, input)
        &&& records_then == token_map::put(records, input.request_id@, answer->Ok_0->0)
    }
}

/// Once a request was settled, asking again with a status that is not pending gives the same
/// settlement and changes nothing.
pub proof fn a_replay_returns_the_settlement(
    first: UsageSettlementInput,
    wallets: Entries<StoredWalletSnapshot>,
    providers: Entries<Binary64>,
    records: Entries<StoredUsageSettlement>,
    settled: Result<Option<StoredUsageSettlement>, DataLayerError>,
    wallets_then: Entries<StoredWalletSnapshot>,
    providers_then: Entries<Binary64>,
    records_then: Entries<StoredUsageSettlement>,
    replay: UsageSettlementInput,
    answer: Result<Option<StoredUsageSettlement>, DataLayerError>,
    wallets_later: Entries<StoredWalletSnapshot>,
    providers_later: Entries<Binary64>,
    records_later: Entries<StoredUsageSettlement>,
)
    requires
        settled is Ok,
        first.billing_status@ == "pending"@,
        settles(
            first,
            wallets,
            providers,
            records,
            settled,
            wallets_then,
            providers_then,
            records_then,
        ),
        replay.request_id@ == first.request_id@,
        replay.fault() is None,
        replay.billing_status@ != "pending"@,
        settles(
            replay,
            wallets_then,
            providers_then,
            records_then,
            answer,
            wallets_later,
            providers_later,
            records_later,
        ),
    ensures
        answer == settled,
        wallets_later == wallets_then,
        providers_later == providers_then,
        records_later == records_then,
{
    token_map::a_stored_value_is_read_back(
        records,
        first.request_id@,
        settled->Ok_0->0,
        first.request_id@,
    );
}

/// A key that stands alone pays from its own wallet or not at all, never from that of its owner.
pub proof fn a_standalone_key_never_pays_from_its_owner(
    wallets: Entries<StoredWalletSnapshot>,
    input: UsageSettlementInput,
)
    requires
        input.api_key_is_standalone,
    ensures
        paying_wallet(wallets, input) matches Some(at) ==> {
            &&& input.api_key_id is Some
            &&& at < wallets.len()
            &&& text::opt_string(wallets[at as int].1.api_key_id) == Some(input.api_key_id->0@)
        },
{
    if input.api_key_id is Some {
        lemma_wallet_of_key(wallets, input.api_key_id->0@, 0);
    }
}

proof fn lemma_wallet_of_key(
    wallets: Entries<StoredWalletSnapshot>,
    key: Seq<char>,
    from: nat,
)
    ensures
        wallet_of_key(wallets, key, from) matches Some(at) ==> from <= at < wallets.len()
            && text::opt_string(wallets[at as int].1.api_key_id) == Some(key),
        forall|i: int|
            from <= i < wallets.len() && text::opt_string((#[trigger] wallets[i]).1.api_key_id)
                == Some(key) ==> wallet_of_key(wallets, key, from) is Some && wallet_of_key(
                wallets,
                key,
                from,
            )->0 <= i,
    decreases wallets.len() - from,
{
    if from < wallets.len() {
        lemma_wallet_of_key(wallets, key, from + 1);
    }
}

proof fn lemma_wallet_of_user(
    wallets: Entries<StoredWalletSnapshot>,
    user: Seq<char>,
    from: nat,
)
    ensures
        wallet_of_user(wallets, user, from) matches Some(at) ==> from <= at < wallets.len()
            && text::opt_string(wallets[at as int].1.user_id) == Some(user),
        forall|i: int|
            from <= i < wallets.len() && text::opt_string((#[trigger] wallets[i]).1.user_id) == Some(
                user,
            ) ==> wallet_of_user(wallets, user, from) is Some && wallet_of_user(
                wallets,
                user,
                from,
            )->0 <= i,
    decreases wallets.len() - from,
{
    if from < wallets.len() {
        lemma_wallet_of_user(wallets, user, from + 1);
    }
}

/// A key that does not stand alone pays from its own wallet where it has one, else from that of its
/// user.
pub proof fn a_normal_key_falls_back_to_its_user(
    wallets: Entries<StoredWalletSnapshot>,
    input: UsageSettlementInput,
    key: String,
    user: String,
)
    requires
        !input.api_key_is_standalone,
        input.api_key_id == Some(key),
        input.user_id == Some(user),
    ensures
        paying_wallet(wallets, input) == match wallet_of_key(wallets, key@, 0) {
            Some(at) => Some(at),
            None => wallet_of_user(wallets, user@, 0),
        },
{
}

/// Of several wallets of one API key, or of one user, the one with the least id pays; and where there
/// is one, it is found.
pub proof fn the_wallet_with_the_least_id_pays(
    wallets: Entries<StoredWalletSnapshot>,
    owner: Seq<char>,
    other: int,
)
    requires
        token_map::in_key_order(wallets),
        under_own_id(wallets),
        0 <= other < wallets.len(),
    ensures
        text::opt_string(wallets[other].1.api_key_id) == Some(owner) ==> {
            let at = wallet_of_key(wallets, owner, 0);
            &&& at is Some
            &&& at->0 < wallets.len()
            &&& text::opt_string(wallets[at->0 as int].1.api_key_id) == Some(owner)
            &&& at->0 == other || text::key_before(
                wallets[at->0 as int].1.id@,
                wallets[other].1.id@,
            )
        },
        text::opt_string(wallets[other].1.user_id) == Some(owner) ==> {
            let at = wallet_of_user(wallets, owner, 0);
            &&& at is Some
            &&& at->0 < wallets.len()
            &&& text::opt_string(wallets[at->0 as int].1.user_id) == Some(owner)
            &&& at->0 == other || text::key_before(
                wallets[at->0 as int].1.id@,
                wallets[other].1.id@,
            )
        },
{
    lemma_wallet_of_key(wallets, owner, 0);
    lemma_wallet_of_user(wallets, owner, 0);
}

/// Settling a request changes no wallet but the one that pays for it, and that one keeps its id and
/// its owner.
pub proof fn only_the_paying_wallet_changes(
    wallets: Entries<StoredWalletSnapshot>,
    input: UsageSettlementInput,
    at: int,
)
    requires
        0 <= at < wallets.len(),
    ensures
        ({
            let then = wallets_after(wallets, input);
            &&& then.len() == wallets.len()
            &&& then[at].0 == wallets[at].0
            &&& then[at].1.id == wallets[at].1.id
            &&& then[at].1.user_id == wallets[at].1.user_id
            &&& then[at].1.api_key_id == wallets[at].1.api_key_id
            &&& paying_wallet(wallets, input) != Some(at as nat) ==> then[at] == wallets[at]
        }),
{
    if input.api_key_id is Some {
        lemma_wallet_of_key(wallets, input.api_key_id->0@, 0);
    }
    if input.user_id is Some {
        lemma_wallet_of_user(wallets, input.user_id->0@, 0);
    }
}

/// Usage that was neither completed nor cancelled charges no wallet and no provider.
pub proof fn void_usage_charges_no_one(
    wallets: Entries<StoredWalletSnapshot>,
    providers: Entries<Binary64>,
    input: UsageSettlementInput,
)
    requires
        !is_billed(input.status@),
    ensures
        wallets_after(wallets, input) == wallets,
        providers_after(wallets, providers, input) == providers,
        record_of(wallets, providers, input).billing_status == "void"@,
{
    if input.api_key_id is Some {
        lemma_wallet_of_key(wallets, input.api_key_id->0@, 0);
    }
    if input.user_id is Some {
        lemma_wallet_of_user(wallets, input.user_id->0@, 0);
    }
    if paying_wallet(wallets, input) is Some {
        let at = paying_wallet(wallets, input)->0;
        assert(wallet_after(wallets[at as int].1, input) == wallets[at as int].1);
        assert(wallets.update(at as int, wallets[at as int]) =~= wallets);
    }
}

} // verus!
