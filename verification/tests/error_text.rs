use crown_dtl::{Amount, CrownEngine, RedemptionId, RedemptionKind, RedemptionStatus, VaultId};

fn refusal(engine: &mut CrownEngine, name: &str, shares: u64, kind: RedemptionKind) -> String {
    let vault = engine.first_vault_id().unwrap();
    let account = engine.account_id(name).unwrap();
    engine
        .request_redemption(account, vault, Amount::from(shares), kind)
        .unwrap_err()
        .describe()
}

#[test]
fn request_refusals_describe_the_amounts() {
    let mut engine = CrownEngine::fixture();
    assert_eq!(
        refusal(&mut engine, "dan", 0, RedemptionKind::Standard),
        "invalid_amount: redemption amount must be non-zero"
    );
    assert_eq!(
        refusal(&mut engine, "dan", 5, RedemptionKind::Standard),
        "invalid_amount: amount 5 below minimum 10"
    );
    assert_eq!(
        refusal(&mut engine, "dan", 2_500, RedemptionKind::Standard),
        "invalid_amount: amount 2500 above maximum 2000"
    );
    assert_eq!(
        refusal(&mut engine, "dan", 50, RedemptionKind::Priority),
        "invalid_lane: account acct-4 cannot use priority lane"
    );
    assert_eq!(
        refusal(&mut engine, "dan", 1_500, RedemptionKind::Standard),
        "insufficient_shares: account acct-4 shares below 1500"
    );
    assert_eq!(
        refusal(&mut engine, "dan", 800, RedemptionKind::Standard),
        "limit_exceeded: daily limit 750 exceeded by projected 800"
    );
    assert_eq!(
        refusal(&mut engine, "bob", 1_100, RedemptionKind::Priority),
        "limit_exceeded: priority limit 1000 exceeded by projected 1100"
    );
}

#[test]
fn priority_capacity_refusal_names_what_is_left() {
    let mut engine = CrownEngine::fixture();
    let vault = engine.first_vault_id().unwrap();
    let carol = engine.account_id("carol").unwrap();
    engine
        .request_redemption(carol, vault, Amount::from(1_000_u64), RedemptionKind::Priority)
        .unwrap();
    assert_eq!(
        refusal(&mut engine, "bob", 600, RedemptionKind::Priority),
        "queue_capacity: priority capacity 500 below request 600"
    );
}

#[test]
fn missing_items_are_named_by_their_id() {
    let mut engine = CrownEngine::fixture();
    let missing_ticket = engine.cancel_redemption(RedemptionId::new(99)).unwrap_err();
    assert_eq!(missing_ticket.describe(), "missing_ticket: rdm-99");
    let missing_vault = engine.vault(VaultId::new(9)).unwrap_err();
    assert_eq!(missing_vault.describe(), "missing_vault: vault-9");
    let missing_account = engine.account_id("erin").unwrap_err();
    assert_eq!(missing_account.code(), "missing_account");
}

#[test]
fn status_refusals_name_the_ticket_and_its_status() {
    let mut engine = CrownEngine::fixture();
    let vault = engine.first_vault_id().unwrap();
    let bob = engine.account_id("bob").unwrap();
    let receipt = engine
        .request_redemption(bob, vault, Amount::from(100_u64), RedemptionKind::Priority)
        .unwrap();
    let id = receipt.redemption_id;
    let queued = engine.withdraw_ticket(id).unwrap_err();
    assert_eq!(queued.describe(), format!("invalid_status: ticket rdm-{} is queued", id.raw()));
    engine.cancel_redemption(id).unwrap();
    let again = engine.cancel_redemption(id).unwrap_err();
    assert_eq!(
        again.describe(),
        format!("invalid_status: ticket rdm-{} cannot be cancelled from cancelled", id.raw())
    );
}

#[test]
fn sweep_refuses_a_queued_ticket_and_changes_nothing() {
    let mut engine = CrownEngine::fixture();
    let vault = engine.first_vault_id().unwrap();
    let bob = engine.account_id("bob").unwrap();
    let receipt = engine
        .request_redemption(bob, vault, Amount::from(300_u64), RedemptionKind::Priority)
        .unwrap();
    let id = receipt.redemption_id;
    engine.advance_days(1).unwrap();
    let refused = engine.withdraw_available(bob, vault).unwrap_err();
    assert_eq!(
        refused.describe(),
        format!("invalid_status: ticket rdm-{} cannot withdraw from queued", id.raw())
    );
    assert_eq!(engine.vault(vault).unwrap().reserve_assets().raw(), 8000);
    assert_eq!(engine.claims().pending_for_ticket(id).raw(), 300);
    assert_eq!(engine.vault(vault).unwrap().ticket(id).unwrap().status(), RedemptionStatus::Queued);
}
