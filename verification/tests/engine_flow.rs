use crown_dtl::{Amount, CrownEngine, RedemptionKind};

#[test]
fn priority_requests_require_eligible_account() {
    let mut engine = CrownEngine::fixture();
    let vault = engine.first_vault_id().unwrap();
    let alice = engine.account_id("alice").unwrap();
    let err = engine
        .request_redemption(
            alice,
            vault,
            Amount::from(100_u64),
            RedemptionKind::Priority,
        )
        .unwrap_err();
    assert_eq!(err.code(), "invalid_lane");
}

#[test]
fn priority_order_precedes_standard_order() {
    let mut engine = CrownEngine::fixture();
    let vault = engine.first_vault_id().unwrap();
    let alice = engine.account_id("alice").unwrap();
    let bob = engine.account_id("bob").unwrap();
    let standard = engine
        .request_redemption(
            alice,
            vault,
            Amount::from(100_u64),
            RedemptionKind::Standard,
        )
        .unwrap();
    let priority = engine
        .request_redemption(bob, vault, Amount::from(100_u64), RedemptionKind::Priority)
        .unwrap();
    let order = engine.queue_order(vault);
    assert_eq!(order, vec![priority.redemption_id, standard.redemption_id]);
}

#[test]
fn cancelled_standard_ticket_releases_daily_limit() {
    let mut engine = CrownEngine::fixture();
    let vault = engine.first_vault_id().unwrap();
    let alice = engine.account_id("alice").unwrap();
    let receipt = engine
        .request_redemption(
            alice,
            vault,
            Amount::from(700_u64),
            RedemptionKind::Standard,
        )
        .unwrap();
    engine.cancel_redemption(receipt.redemption_id).unwrap();
    let second = engine.request_redemption(
        alice,
        vault,
        Amount::from(700_u64),
        RedemptionKind::Standard,
    );
    assert!(second.is_ok());
}
