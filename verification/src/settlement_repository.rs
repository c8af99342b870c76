//! The store of everything that is settled: admissions, reservations, wallets and settlements.

use crate::binary64::Binary64;
use crate::cost_ledger;
use crate::cost_ledger::{
    CostLedger, ReconcileUsagePolicyCostInput, ReserveUsagePolicyCostInput,
    ReserveUsagePolicyCostOutcome, StoredUsagePolicyCostReservation,
};
use crate::error;
use crate::error::DataLayerError;
use crate::request_ledger;
use crate::request_ledger::{
    ReleaseUsagePolicyRequestAdmissionInput, RequestLedger, ReserveUsagePolicyRequestInput,
    ReserveUsagePolicyRequestOutcome, StoredUsagePolicyRequestAdmission,
};
use crate::retention;
use crate::settlement;
use crate::settlement::{
    InMemoryWalletRepository, SettlementBooks, StoredUsageSettlement, UsageSettlementInput,
};
use crate::token_map;
use crate::token_map::Entries;
use crate::wallet::StoredWalletSnapshot;
use vstd::prelude::*;

verus! {

/// A store that admissions, reservations and settlements are written to.
pub trait SettlementWriteRepository: Send + Sync + Sized {
    /// The store is in order.
    spec fn ready(&self) -> bool;

    /// Admits a request where every window has room for it.
    fn reserve_usage_policy_request(&mut self, input: ReserveUsagePolicyRequestInput) -> (r: Result<
        ReserveUsagePolicyRequestOutcome,
        DataLayerError,
    >)
        requires
            old(self).ready(),
        ensures
            final(self).ready(),
    ;

    /// Gives an admission back.
    fn release_usage_policy_request_admission(
        &mut self,
        input: ReleaseUsagePolicyRequestAdmissionInput,
    ) -> (r: Result<Option<StoredUsagePolicyRequestAdmission>, DataLayerError>)
        requires
            old(self).ready(),
        ensures
            final(self).ready(),
    ;

    /// Takes out admissions that are not to be kept any longer. A store that keeps none has nothing
    /// to do.
    fn cleanup_usage_policy_request_admissions(
        &mut self,
        now_unix_secs: u64,
        batch_size: usize,
    ) -> (r: Result<usize, DataLayerError>)
        requires
            old(self).ready(),
        ensures
            final(self).ready(),
        default_ensures
            r == Ok::<usize, DataLayerError>(0),
            *final(self) == *old(self),
    {
        Ok(0)
    }

    /// Reserves cost where every window has enough left for it.
    fn reserve_usage_policy_cost(&mut self, input: ReserveUsagePolicyCostInput) -> (r: Result<
        ReserveUsagePolicyCostOutcome,
        DataLayerError,
    >)
        requires
            old(self).ready(),
        ensures
            final(self).ready(),
    ;

    /// Ends a reservation with what was spent.
    fn reconcile_usage_policy_cost(&mut self, input: ReconcileUsagePolicyCostInput) -> (r: Result<
        Option<StoredUsagePolicyCostReservation>,
        DataLayerError,
    >)
        requires
            old(self).ready(),
        ensures
            final(self).ready(),
    ;

    /// Takes out reservations that are not to be kept any longer. A store that keeps none has
    /// nothing to do.
    fn cleanup_usage_policy_cost_reservations(
        &mut self,
        now_unix_secs: u64,
        batch_size: usize,
    ) -> (r: Result<usize, DataLayerError>)
        requires
            old(self).ready(),
        ensures
            final(self).ready(),
        default_ensures
            r == Ok::<usize, DataLayerError>(0),
            *final(self) == *old(self),
    {
        Ok(0)
    }

    /// Settles the usage of a request.
    fn settle_usage(&mut self, input: UsageSettlementInput) -> (r: Result<
        Option<StoredUsageSettlement>,
        DataLayerError,
    >)
        requires
            old(self).ready(),
        ensures
            final(self).ready(),
    ;
}

/// A store of settlements.
pub trait SettlementRepository: SettlementWriteRepository + Send + Sync {

}

impl<T> SettlementRepository for T where T: SettlementWriteRepository + Send + Sync {

}

/// A store that is held in memory.
#[derive(Debug)]
pub struct InMemorySettlementRepository {
    wallets: InMemoryWalletRepository,
    books: SettlementBooks,
    cost_reservations: CostLedger,
    request_admissions: RequestLedger,
}

impl InMemorySettlementRepository {
    /// The wallets, by id.
    pub closed spec fn wallets(&self) -> Entries<StoredWalletSnapshot> {
        self.wallets@
    }

    /// What the providers were used for this month.
    pub closed spec fn providers(&self) -> Entries<Binary64> {
        self.books.providers()
    }

    /// The settlements, by request.
    pub closed spec fn settlements(&self) -> Entries<StoredUsageSettlement> {
        self.books.records()
    }

    /// The cost reservations, by token.
    pub closed spec fn reservations(&self) -> Entries<StoredUsagePolicyCostReservation> {
        self.cost_reservations@
    }

    /// The request admissions, by token.
    pub closed spec fn admissions(&self) -> Entries<StoredUsagePolicyRequestAdmission> {
        self.request_admissions@
    }

    /// All parts are in order.
    pub closed spec fn wf(&self) -> bool {
        &&& self.wallets.wf()
        &&& self.books.wf()
        &&& self.cost_reservations.wf()
        &&& self.request_admissions.wf()
    }

    /// A store in order has its wallets, books and ledgers in the order of their keys, each wallet
    /// under its own id and each reservation under its own token: the state in which the laws of the
    /// ledgers hold, and in which the first wallet is the one with the least id.
    pub proof fn a_store_in_order_has_ledgers_in_order(&self)
        requires
            self.wf(),
        ensures
            token_map::in_key_order(self.admissions()),
            token_map::in_key_order(self.reservations()),
            cost_ledger::under_own_token(self.reservations()),
            token_map::in_key_order(self.wallets()),
            settlement::under_own_id(self.wallets()),
            token_map::in_key_order(self.providers()),
            token_map::in_key_order(self.settlements()),
    {
    }

    /// A store with these wallets and nothing else.
    pub fn seed(items: Vec<StoredWalletSnapshot>) -> (r: Self)
        ensures
            r.wf(),
            r.wallets() == settlement::stored_wallets(
                Entries::<StoredWalletSnapshot>::empty(),
                items@,
                0,
            ),
            r.is_fresh(),
    {
        Self::from_wallet_repository(InMemoryWalletRepository::seeded(items))
    }

    /// A store around a store of wallets.
    pub fn from_wallet_repository(wallet_repository: InMemoryWalletRepository) -> (r: Self)
        requires
            wallet_repository.wf(),
        ensures
            r.wf(),
            r.wallets() == wallet_repository@,
            r.is_fresh(),
    {
        InMemorySettlementRepository {
            wallets: wallet_repository,
            books: SettlementBooks::new(),
            cost_reservations: CostLedger::new(),
            request_admissions: RequestLedger::new(),
        }
    }

    /// Nothing was admitted, reserved or settled yet.
    pub open spec fn is_fresh(&self) -> bool {
        &&& self.providers() == Entries::<Binary64>::empty()
        &&& self.settlements() == Entries::<StoredUsageSettlement>::empty()
        &&& self.reservations() == Entries::<StoredUsagePolicyCostReservation>::empty()
        &&& self.admissions() == Entries::<StoredUsagePolicyRequestAdmission>::empty()
    }

    /// The admission with a token.
    pub fn request_admission(&self, event_token: &str) -> (r: Option<
        &StoredUsagePolicyRequestAdmission,
    >)
        requires
            self.wf(),
        ensures
            match r {
                Some(admission) => token_map::lookup(self.admissions(), event_token@) == Some(
                    *admission,
                ),
                None => token_map::lookup(self.admissions(), event_token@) is None,
            },
    {
        self.request_admissions.get(event_token)
    }

    /// The reservation with a token.
    pub fn cost_reservation(&self, reservation_token: &str) -> (r: Option<
        &StoredUsagePolicyCostReservation,
    >)
        requires
            self.wf(),
        ensures
            match r {
                Some(reservation) => token_map::lookup(self.reservations(), reservation_token@)
                    == Some(*reservation),
                None => token_map::lookup(self.reservations(), reservation_token@) is None,
            },
    {
        self.cost_reservations.get(reservation_token)
    }

    /// The wallet with an id.
    pub fn wallet(&self, id: &str) -> (r: Option<&StoredWalletSnapshot>)
        requires
            self.wf(),
        ensures
            match r {
                Some(wallet) => token_map::lookup(self.wallets(), id@) == Some(*wallet),
                None => token_map::lookup(self.wallets(), id@) is None,
            },
    {
        self.wallets.get(id)
    }

    /// Two states of the store that differ in the admissions alone.
    pub open spec fn same_but_admissions(&self, other: &Self) -> bool {
        &&& self.wallets() == other.wallets()
        &&& self.providers() == other.providers()
        &&& self.settlements() == other.settlements()
        &&& self.reservations() == other.reservations()
    }

    /// Two states of the store that differ in the reservations alone.
    pub open spec fn same_but_reservations(&self, other: &Self) -> bool {
        &&& self.wallets() == other.wallets()
        &&& self.providers() == other.providers()
        &&& self.settlements() == other.settlements()
        &&& self.admissions() == other.admissions()
    }
}

impl Default for InMemorySettlementRepository {
    fn default() -> (r: Self)
        ensures
            r.wf(),
            r.wallets() == Entries::<StoredWalletSnapshot>::empty(),
            r.is_fresh(),
    {
        Self::seed(Vec::new())
    }
}

impl SettlementWriteRepository for InMemorySettlementRepository {
    open spec fn ready(&self) -> bool {
        self.wf()
    }

    fn reserve_usage_policy_request(&mut self, input: ReserveUsagePolicyRequestInput) -> (r: Result<
        ReserveUsagePolicyRequestOutcome,
        DataLayerError,
    >)
        ensures
            error::is_outcome(r, request_ledger::reserved(old(self).admissions(), input).0),
            final(self).admissions() == request_ledger::reserved(old(self).admissions(), input).1,
            final(self).same_but_admissions(old(self)),
    {
        self.request_admissions.reserve(input)
    }

    fn release_usage_policy_request_admission(
        &mut self,
        input: ReleaseUsagePolicyRequestAdmissionInput,
    ) -> (r: Result<Option<StoredUsagePolicyRequestAdmission>, DataLayerError>)
        ensures
            error::is_outcome(r, request_ledger::released(old(self).admissions(), input).0),
            final(self).admissions() == request_ledger::released(old(self).admissions(), input).1,
            final(self).same_but_admissions(old(self)),
    {
        self.request_admissions.release(input)
    }

    fn cleanup_usage_policy_request_admissions(
        &mut self,
        now_unix_secs: u64,
        batch_size: usize,
    ) -> (r: Result<usize, DataLayerError>)
        ensures
            final(self).admissions() == retention::swept(
                old(self).admissions(),
                now_unix_secs,
                batch_size as nat,
            ),
            r is Ok,
            r->Ok_0 == old(self).admissions().len() - final(self).admissions().len(),
            final(self).same_but_admissions(old(self)),
    {
        Ok(self.request_admissions.cleanup(now_unix_secs, batch_size))
    }

    fn reserve_usage_policy_cost(&mut self, input: ReserveUsagePolicyCostInput) -> (r: Result<
        ReserveUsagePolicyCostOutcome,
        DataLayerError,
    >)
        ensures
            error::is_outcome(r, cost_ledger::reserved(old(self).reservations(), input).0),
            final(self).reservations() == cost_ledger::reserved(old(self).reservations(), input).1,
            final(self).same_but_reservations(old(self)),
    {
        self.cost_reservations.reserve(input)
    }

    fn reconcile_usage_policy_cost(&mut self, input: ReconcileUsagePolicyCostInput) -> (r: Result<
        Option<StoredUsagePolicyCostReservation>,
        DataLayerError,
    >)
        ensures
            error::is_outcome(r, cost_ledger::reconciled(old(self).reservations(), input).0),
            final(self).reservations() == cost_ledger::reconciled(
                old(self).reservations(),
                input,
            ).1,
            final(self).same_but_reservations(old(self)),
    {
        self.cost_reservations.reconcile(input)
    }

    fn cleanup_usage_policy_cost_reservations(
        &mut self,
        now_unix_secs: u64,
        batch_size: usize,
    ) -> (r: Result<usize, DataLayerError>)
        ensures
            final(self).reservations() == retention::swept(
                old(self).reservations(),
                now_unix_secs,
                batch_size as nat,
            ),
            r is Ok,
            r->Ok_0 == old(self).reservations().len() - final(self).reservations().len(),
            final(self).same_but_reservations(old(self)),
    {
        Ok(self.cost_reservations.cleanup(now_unix_secs, batch_size))
    }

    fn settle_usage(&mut self, input: UsageSettlementInput) -> (r: Result<
        Option<StoredUsageSettlement>,
        DataLayerError,
    >)
        ensures
            settlement::settles(
                input,
                old(self).wallets(),
                old(self).providers(),
                old(self).settlements(),
                r,
                final(self).wallets(),
                final(self).providers(),
                final(self).settlements(),
            ),
            final(self).reservations() == old(self).reservations(),
            final(self).admissions() == old(self).admissions(),
    {
        self.books.settle_usage(&mut self.wallets, input)
    }
}

} // verus!
