use aether_usage_policy::binary64::Binary64;
use aether_usage_policy::settlement::UsageSettlementInput;
use aether_usage_policy::settlement_repository::{
    InMemorySettlementRepository, SettlementWriteRepository,
};
use aether_usage_policy::wallet::StoredWalletSnapshot;

fn usd(value: f64) -> Binary64 {
    Binary64 { bits: value.to_bits() }
}

fn sample_wallet() -> StoredWalletSnapshot {
    StoredWalletSnapshot {
        id: "wallet-1".to_string(),
        user_id: Some("user-1".to_string()),
        api_key_id: Some("key-1".to_string()),
        balance: usd(10.0),
        gift_balance: usd(2.0),
        limit_mode: "finite".to_string(),
        total_consumed: usd(0.0),
    }
}

fn sample_user_wallet(wallet_id: &str, user_id: &str) -> StoredWalletSnapshot {
    StoredWalletSnapshot {
        id: wallet_id.to_string(),
        user_id: Some(user_id.to_string()),
        api_key_id: None,
        balance: usd(10.0),
        gift_balance: usd(2.0),
        limit_mode: "finite".to_string(),
        total_consumed: usd(0.0),
    }
}

#[test]
fn settles_usage_against_wallet_and_provider_quota() {
    let mut repository = InMemorySettlementRepository::seed(vec![sample_wallet()]);
    let settlement = repository
        .settle_usage(UsageSettlementInput {
            request_id: "req-1".to_string(),
            user_id: Some("user-1".to_string()),
            api_key_id: Some("key-1".to_string()),
            api_key_is_standalone: false,
            provider_id: Some("provider-1".to_string()),
            status: "completed".to_string(),
            billing_status: "pending".to_string(),
            total_cost_usd: usd(3.0),
            actual_total_cost_usd: usd(6.0),
            finalized_at_unix_secs: Some(200),
        })
        .expect("settlement should succeed")
        .expect("settlement should exist");

    assert_eq!(settlement.billing_status, "settled");
    assert_eq!(settlement.wallet_balance_before, Some(usd(12.0)));
    assert_eq!(settlement.wallet_balance_after, Some(usd(6.0)));
    assert_eq!(settlement.provider_monthly_used_usd, Some(usd(6.0)));
}

#[test]
fn normal_key_settlement_falls_back_to_user_wallet() {
    let mut repository = InMemorySettlementRepository::seed(vec![sample_user_wallet("wallet-user-1", "user-1")]);
    let settlement = repository
        .settle_usage(UsageSettlementInput {
            request_id: "req-user-wallet".to_string(),
            user_id: Some("user-1".to_string()),
            api_key_id: Some("normal-key-without-wallet".to_string()),
            api_key_is_standalone: false,
            provider_id: None,
            status: "completed".to_string(),
            billing_status: "pending".to_string(),
            total_cost_usd: usd(3.0),
            actual_total_cost_usd: usd(6.0),
            finalized_at_unix_secs: Some(200),
        })
        .expect("settlement should succeed")
        .expect("settlement should exist");

    assert_eq!(settlement.wallet_id.as_deref(), Some("wallet-user-1"));
    assert_eq!(settlement.wallet_balance_before, Some(usd(12.0)));
    assert_eq!(settlement.wallet_balance_after, Some(usd(6.0)));
}

#[test]
fn settles_cancelled_usage_against_wallet_and_provider_quota() {
    let mut repository = InMemorySettlementRepository::seed(vec![sample_wallet()]);
    let settlement = repository
        .settle_usage(UsageSettlementInput {
            request_id: "req-cancelled".to_string(),
            user_id: Some("user-1".to_string()),
            api_key_id: Some("key-1".to_string()),
            api_key_is_standalone: false,
            provider_id: Some("provider-1".to_string()),
            status: "cancelled".to_string(),
            billing_status: "pending".to_string(),
            total_cost_usd: usd(3.0),
            actual_total_cost_usd: usd(6.0),
            finalized_at_unix_secs: Some(200),
        })
        .expect("settlement should succeed")
        .expect("settlement should exist");

    assert_eq!(settlement.billing_status, "settled");
    assert_eq!(settlement.wallet_balance_before, Some(usd(12.0)));
    assert_eq!(settlement.wallet_balance_after, Some(usd(6.0)));
    assert_eq!(settlement.provider_monthly_used_usd, Some(usd(6.0)));
}

#[test]
fn standalone_key_settlement_never_falls_back_to_owner_wallet() {
    let mut repository = InMemorySettlementRepository::seed(vec![sample_user_wallet(
        "wallet-admin-owner",
        "admin-owner",
    )]);
    let settlement = repository
        .settle_usage(UsageSettlementInput {
            request_id: "req-standalone-no-key-wallet".to_string(),
            user_id: Some("admin-owner".to_string()),
            api_key_id: Some("standalone-key-without-wallet".to_string()),
            api_key_is_standalone: true,
            provider_id: None,
            status: "completed".to_string(),
            billing_status: "pending".to_string(),
            total_cost_usd: usd(3.0),
            actual_total_cost_usd: usd(1.5),
            finalized_at_unix_secs: Some(200),
        })
        .expect("settlement should succeed")
        .expect("settlement should exist");

    assert_eq!(settlement.billing_status, "insufficient_quota");
    assert_eq!(settlement.wallet_id, None);
    assert_eq!(settlement.wallet_balance_before, None);
    assert_eq!(settlement.wallet_balance_after, None);
}

#[test]
fn finite_wallet_insufficient_balance_overdraws_and_settles() {
    let mut repository = InMemorySettlementRepository::seed(vec![sample_wallet()]);
    let settlement = repository
        .settle_usage(UsageSettlementInput {
            request_id: "req-insufficient-wallet".to_string(),
            user_id: Some("user-1".to_string()),
            api_key_id: Some("key-1".to_string()),
            api_key_is_standalone: false,
            provider_id: Some("provider-1".to_string()),
            status: "completed".to_string(),
            billing_status: "pending".to_string(),
            total_cost_usd: usd(3.0),
            actual_total_cost_usd: usd(15.0),
            finalized_at_unix_secs: Some(200),
        })
        .expect("settlement should succeed")
        .expect("settlement should exist");

    assert_eq!(settlement.billing_status, "settled");
    assert_eq!(settlement.wallet_balance_before, Some(usd(12.0)));
    assert_eq!(settlement.wallet_balance_after, Some(usd(-3.0)));
    assert_eq!(settlement.wallet_recharge_balance_after, Some(usd(-3.0)));
    assert_eq!(settlement.wallet_gift_balance_after, Some(usd(0.0)));
    assert_eq!(settlement.provider_monthly_used_usd, Some(usd(15.0)));
}

#[test]
fn returns_stored_snapshot_when_usage_is_already_finalized() {
    let mut repository = InMemorySettlementRepository::seed(vec![sample_wallet()]);
    let settled = repository
        .settle_usage(UsageSettlementInput {
            request_id: "req-2".to_string(),
            user_id: Some("user-1".to_string()),
            api_key_id: Some("key-1".to_string()),
            api_key_is_standalone: false,
            provider_id: Some("provider-1".to_string()),
            status: "completed".to_string(),
            billing_status: "pending".to_string(),
            total_cost_usd: usd(2.0),
            actual_total_cost_usd: usd(1.0),
            finalized_at_unix_secs: Some(250),
        })
        .expect("settlement should succeed")
        .expect("settlement should exist");

    let replay = repository
        .settle_usage(UsageSettlementInput {
            request_id: "req-2".to_string(),
            user_id: Some("user-1".to_string()),
            api_key_id: Some("key-1".to_string()),
            api_key_is_standalone: false,
            provider_id: Some("provider-1".to_string()),
            status: "completed".to_string(),
            billing_status: "settled".to_string(),
            total_cost_usd: usd(2.0),
            actual_total_cost_usd: usd(1.0),
            finalized_at_unix_secs: Some(250),
        })
        .expect("replay should succeed")
        .expect("snapshot should exist");

    assert_eq!(replay, settled);
}

fn usage(request_id: &str, status: &str, cost: f64) -> UsageSettlementInput {
    UsageSettlementInput {
        request_id: request_id.to_string(),
        user_id: Some("user-1".to_string()),
        api_key_id: Some("key-1".to_string()),
        api_key_is_standalone: false,
        provider_id: Some("provider-1".to_string()),
        status: status.to_string(),
        billing_status: "pending".to_string(),
        total_cost_usd: usd(cost),
        actual_total_cost_usd: usd(cost),
        finalized_at_unix_secs: Some(200),
    }
}

#[test]
fn void_usage_charges_no_one() {
    let mut repository = InMemorySettlementRepository::seed(vec![sample_wallet()]);
    let settlement = repository.settle_usage(usage("req", "failed", 6.0)).unwrap().unwrap();
    assert_eq!(settlement.billing_status, "void");
    assert_eq!(settlement.provider_monthly_used_usd, None);
    assert_eq!(repository.wallet("wallet-1").unwrap().balance, usd(10.0));
}

#[test]
fn settled_usage_is_taken_from_the_wallet_and_adds_up() {
    let mut repository = InMemorySettlementRepository::seed(vec![
        sample_wallet(),
        sample_user_wallet("wallet-2", "user-2"),
    ]);
    repository.settle_usage(usage("req-1", "completed", 6.0)).unwrap();
    let second = repository.settle_usage(usage("req-2", "completed", 5.0)).unwrap().unwrap();
    assert_eq!(second.wallet_recharge_balance_before, Some(usd(4.0)));
    assert_eq!(second.wallet_gift_balance_before, Some(usd(2.0)));
    assert_eq!(second.wallet_recharge_balance_after, Some(usd(0.0)));
    assert_eq!(second.wallet_gift_balance_after, Some(usd(1.0)));
    assert_eq!(second.provider_monthly_used_usd, Some(usd(11.0)));
    assert_eq!(second.finalized_at_unix_secs, Some(200));
    let wallet = repository.wallet("wallet-1").unwrap();
    assert_eq!(wallet.balance, usd(0.0));
    assert_eq!(wallet.gift_balance, usd(1.0));
    assert_eq!(wallet.total_consumed, usd(11.0));
    assert_eq!(repository.wallet("wallet-2").unwrap().balance, usd(10.0));
}

#[test]
fn an_unlimited_wallet_is_not_debited() {
    let mut wallet = sample_wallet();
    wallet.limit_mode = "Unlimited".to_string();
    let mut repository = InMemorySettlementRepository::seed(vec![wallet]);
    let settlement = repository.settle_usage(usage("req", "completed", 50.0)).unwrap().unwrap();
    assert_eq!(settlement.billing_status, "settled");
    assert_eq!(settlement.wallet_balance_before, Some(usd(12.0)));
    assert_eq!(settlement.wallet_balance_after, Some(usd(12.0)));
    assert_eq!(repository.wallet("wallet-1").unwrap().total_consumed, usd(50.0));
}

#[test]
fn invalid_usage_is_not_settled() {
    let mut repository = InMemorySettlementRepository::seed(vec![sample_wallet()]);
    assert!(repository.settle_usage(usage(" ", "completed", 1.0)).is_err());
    assert!(repository.settle_usage(usage("req", "completed", f64::NAN)).is_err());
    assert_eq!(repository.wallet("wallet-1").unwrap().balance, usd(10.0));
}

#[test]
fn of_several_wallets_the_one_with_the_least_id_pays() {
    let mut repository = InMemorySettlementRepository::seed(vec![
        sample_user_wallet("wallet-c", "user-1"),
        sample_user_wallet("wallet-a", "user-2"),
        sample_user_wallet("wallet-b", "user-1"),
    ]);
    let settlement = repository
        .settle_usage(UsageSettlementInput {
            api_key_id: None,
            ..usage("req-several", "completed", 1.0)
        })
        .expect("settlement should succeed")
        .expect("settlement should exist");
    assert_eq!(settlement.wallet_id.as_deref(), Some("wallet-b"));
}
