use crown_dtl::{AccountTier, Amount, CrownEngine, EpochDay, RedemptionKind, RedemptionStatus, VaultId};

#[test]
fn fixture_holds_four_accounts_and_one_vault() {
    let engine = crown_dtl::fixture_engine();
    let vault = engine.first_vault_id().unwrap();
    assert_eq!(vault, VaultId::new(1));
    let v = engine.vault(vault).unwrap();
    assert_eq!(v.reserve_assets().raw(), 8000);
    assert_eq!(v.total_shares().raw(), 8000);
    assert_eq!(engine.accounts().len(), 4);
    assert_eq!(engine.ledger().journal().len(), 18);
    let carol = engine.account_id("CAROL").unwrap();
    let account = engine.accounts().get(carol).unwrap();
    assert_eq!(account.portfolio().share_balance(vault).raw(), 3000);
    assert_eq!(account.tier(), AccountTier::Institutional);
}

#[test]
fn cancelling_gives_back_shares_limit_and_capacity() {
    let mut engine = CrownEngine::fixture();
    let vault = engine.first_vault_id().unwrap();
    let carol = engine.account_id("carol").unwrap();
    let day = engine.day();
    let receipt = engine
        .request_redemption(carol, vault, Amount::from(400_u64), RedemptionKind::Priority)
        .unwrap();
    assert_eq!(engine.daily_active(carol, vault, day).unwrap().raw(), 400);
    assert_eq!(engine.priority_available(vault, day).unwrap().raw(), 1100);
    let shares = engine.accounts().get(carol).unwrap().portfolio().share_balance(vault).raw();
    assert_eq!(shares, 2600);
    let ticket = engine.cancel_redemption(receipt.redemption_id).unwrap();
    assert_eq!(ticket.id(), receipt.redemption_id);
    assert_eq!(ticket.status(), RedemptionStatus::Cancelled);
    assert_eq!(engine.daily_active(carol, vault, day).unwrap().raw(), 0);
    assert_eq!(engine.priority_available(vault, day).unwrap().raw(), 1500);
    let shares = engine.accounts().get(carol).unwrap().portfolio().share_balance(vault).raw();
    assert_eq!(shares, 3000);
    assert_eq!(engine.vault(vault).unwrap().total_shares().raw(), 8000);
}

#[test]
fn withdrawal_waits_for_the_unlock_day() {
    let mut engine = CrownEngine::fixture();
    let vault = engine.first_vault_id().unwrap();
    let bob = engine.account_id("bob").unwrap();
    let receipt = engine
        .request_redemption(bob, vault, Amount::from(100_u64), RedemptionKind::Priority)
        .unwrap();
    let queued = engine.withdraw_ticket(receipt.redemption_id).unwrap_err();
    assert_eq!(queued.code(), "invalid_status");
    engine.process_vault_queue(vault, 5).unwrap();
    let early = engine.withdraw_ticket(receipt.redemption_id).unwrap_err();
    assert_eq!(early.code(), "window_not_ready");
    engine.advance_days(1).unwrap();
    let paid = engine.withdraw_ticket(receipt.redemption_id).unwrap();
    assert_eq!(paid.amount.raw(), 100);
    let again = engine.withdraw_ticket(receipt.redemption_id).unwrap_err();
    assert_eq!(again.code(), "invalid_status");
}

#[test]
fn refusals_name_their_reason() {
    let mut engine = CrownEngine::fixture();
    let vault = engine.first_vault_id().unwrap();
    let dan = engine.account_id("dan").unwrap();
    let missing = engine.account_id("erin").unwrap_err();
    assert_eq!(missing.code(), "missing_account");
    let small = engine
        .request_redemption(dan, vault, Amount::from(5_u64), RedemptionKind::Standard)
        .unwrap_err();
    assert_eq!(small.code(), "invalid_amount");
    let too_many = engine
        .request_redemption(dan, vault, Amount::from(1_500_u64), RedemptionKind::Standard)
        .unwrap_err();
    assert_eq!(too_many.code(), "insufficient_shares");
    let over_limit = engine
        .request_redemption(dan, vault, Amount::from(800_u64), RedemptionKind::Standard)
        .unwrap_err();
    assert_eq!(over_limit.code(), "limit_exceeded");
    let no_vault = engine
        .request_redemption(dan, VaultId::new(9), Amount::from(100_u64), RedemptionKind::Standard)
        .unwrap_err();
    assert_eq!(no_vault.code(), "missing_vault");
    let no_ticket = engine
        .cancel_redemption(crown_dtl::RedemptionId::new(77))
        .unwrap_err();
    assert_eq!(no_ticket.code(), "missing_ticket");
    engine.set_day(EpochDay::new(31));
    let closed = engine
        .request_redemption(dan, vault, Amount::from(100_u64), RedemptionKind::Standard)
        .unwrap_err();
    assert_eq!(closed.code(), "window_closed");
}

#[test]
fn registrations_refuse_duplicates_and_blanks() {
    let mut engine = CrownEngine::fixture();
    let dup = engine.register_account("Alice", AccountTier::Vip).unwrap_err();
    assert_eq!(dup.code(), "duplicate_account");
    let blank = engine.register_account("  ", AccountTier::Vip).unwrap_err();
    assert_eq!(blank.code(), "invalid_policy");
    let asset = engine
        .register_asset("cusd", "again", 6, Amount::from(1_u64))
        .unwrap_err();
    assert_eq!(asset.code(), "duplicate_asset");
    let eve = engine.register_account("eve", AccountTier::Standard).unwrap();
    let vault = engine.first_vault_id().unwrap();
    engine.mint_position(eve, vault, Amount::from(50_u64)).unwrap();
    assert_eq!(engine.vault(vault).unwrap().total_shares().raw(), 8050);
    let zero = engine.mint_position(eve, vault, Amount::from(0_u64)).unwrap_err();
    assert_eq!(zero.code(), "invalid_amount");
    engine.check_invariants().unwrap();
}

#[test]
fn cancelled_priority_tickets_release_their_claims() {
    let mut engine = CrownEngine::fixture();
    let vault = engine.first_vault_id().unwrap();
    let bob = engine.account_id("bob").unwrap();
    for _ in 0..8 {
        let receipt = engine
            .request_redemption(bob, vault, Amount::from(900_u64), RedemptionKind::Priority)
            .unwrap();
        let id = receipt.redemption_id;
        engine.cancel_redemption(id).unwrap();
        assert_eq!(engine.claims().pending_for_ticket(id).raw(), 0);
    }
    assert_eq!(engine.claims().open_claims().len(), 0);
    let again = engine
        .request_redemption(bob, vault, Amount::from(900_u64), RedemptionKind::Priority)
        .unwrap();
    assert_eq!(again.quoted_assets.raw(), 900);
    assert_eq!(engine.claims().open_claims().len(), 1);
}

#[test]
fn quotes_leave_out_assets_already_owed() {
    let mut engine = CrownEngine::fixture();
    let vault = engine.first_vault_id().unwrap();
    let alice = engine.account_id("alice").unwrap();
    let dan = engine.account_id("dan").unwrap();
    let first = engine
        .request_redemption(alice, vault, Amount::from(100_u64), RedemptionKind::Standard)
        .unwrap();
    assert_eq!(first.quoted_assets.raw(), 100);
    let second = engine
        .request_redemption(dan, vault, Amount::from(100_u64), RedemptionKind::Standard)
        .unwrap();
    assert_eq!(second.quoted_assets.raw(), 100);
    let state = engine.vault(vault).unwrap();
    assert!(state.pending_assets().raw() <= state.reserve_assets().raw());
}

#[test]
fn sweep_after_a_cancellation_pays_nothing() {
    let mut engine = CrownEngine::fixture();
    let vault = engine.first_vault_id().unwrap();
    let bob = engine.account_id("bob").unwrap();
    let receipt = engine
        .request_redemption(bob, vault, Amount::from(500_u64), RedemptionKind::Priority)
        .unwrap();
    engine.cancel_redemption(receipt.redemption_id).unwrap();
    assert_eq!(engine.claims().pending_for_ticket(receipt.redemption_id).raw(), 0);
    engine.advance_days(1).unwrap();
    let sweep = engine.withdraw_available(bob, vault).unwrap();
    assert_eq!(sweep.amount.raw(), 0);
    assert!(sweep.redemptions.is_empty());
    assert_eq!(engine.vault(vault).unwrap().reserve_assets().raw(), 8000);
    let asset = engine.vault(vault).unwrap().asset();
    assert_eq!(engine.accounts().get(bob).unwrap().portfolio().asset_balance(asset).raw(), 0);
}

#[test]
fn minting_to_an_unknown_account_changes_nothing() {
    let mut engine = CrownEngine::fixture();
    let vault = engine.first_vault_id().unwrap();
    let err = engine
        .mint_position(crown_dtl::AccountId::new(99), vault, Amount::from(100_u64))
        .unwrap_err();
    assert_eq!(err.code(), "missing_account");
    assert_eq!(engine.vault(vault).unwrap().total_shares().raw(), 8000);
    assert_eq!(engine.vault(vault).unwrap().reserve_assets().raw(), 8000);
}

#[test]
fn processing_with_no_item_limit_takes_the_whole_queue() {
    let mut engine = CrownEngine::fixture();
    let vault = engine.first_vault_id().unwrap();
    let bob = engine.account_id("bob").unwrap();
    let carol = engine.account_id("carol").unwrap();
    engine
        .request_redemption(bob, vault, Amount::from(100_u64), RedemptionKind::Standard)
        .unwrap();
    engine
        .request_redemption(carol, vault, Amount::from(200_u64), RedemptionKind::Priority)
        .unwrap();
    let done = engine.process_vault_queue(vault, usize::MAX).unwrap();
    assert_eq!(done.len(), 2);
    let snapshot = engine.queue_snapshot(vault).unwrap();
    assert_eq!(snapshot.priority_depth(), 0);
    assert_eq!(snapshot.standard_depth(), 0);
}

#[test]
fn reserve_covers_claims_through_request_processing_and_withdrawal() {
    let mut engine = CrownEngine::fixture();
    let vault = engine.first_vault_id().unwrap();
    let alice = engine.account_id("alice").unwrap();
    let carol = engine.account_id("carol").unwrap();
    let standard = engine
        .request_redemption(alice, vault, Amount::from(400_u64), RedemptionKind::Standard)
        .unwrap();
    let priority = engine
        .request_redemption(carol, vault, Amount::from(800_u64), RedemptionKind::Priority)
        .unwrap();
    engine.check_invariants().unwrap();
    let v = engine.vault(vault).unwrap();
    assert_eq!(v.pending_assets().raw(), standard.quoted_assets.raw() + priority.quoted_assets.raw());
    assert!(v.pending_assets().raw() <= v.reserve_assets().raw());
    engine.process_vault_queue(vault, 10).unwrap();
    engine.check_invariants().unwrap();
    engine.advance_days(3).unwrap();
    let paid = engine.withdraw_ticket(priority.redemption_id).unwrap();
    assert_eq!(paid.amount, priority.quoted_assets);
    let swept = engine.withdraw_available(alice, vault).unwrap();
    assert_eq!(swept.amount, standard.quoted_assets);
    engine.check_invariants().unwrap();
    let v = engine.vault(vault).unwrap();
    assert_eq!(v.pending_assets().raw(), 0);
    assert_eq!(v.reserve_assets().raw(), 8000 - standard.quoted_assets.raw() - priority.quoted_assets.raw());
}

#[test]
fn tickets_unlock_after_the_policy_delay_of_their_lane() {
    let mut engine = CrownEngine::fixture();
    let vault = engine.first_vault_id().unwrap();
    let bob = engine.account_id("bob").unwrap();
    engine.advance_days(2).unwrap();
    let fast = engine
        .request_redemption(bob, vault, Amount::from(100_u64), RedemptionKind::Priority)
        .unwrap();
    let slow = engine
        .request_redemption(bob, vault, Amount::from(100_u64), RedemptionKind::Standard)
        .unwrap();
    assert_eq!(fast.unlock_day, EpochDay::new(3));
    assert_eq!(slow.unlock_day, EpochDay::new(5));
}
