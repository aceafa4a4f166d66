use vstd::prelude::*;
use crate::accounts::AccountTier;
use crate::amount::Amount;
use crate::engine::{lemma_error_codes, CrownEngine};
use crate::error::{CrownError, CrownResult};
use crate::ids::{AccountId, RedemptionId, VaultId};
use crate::priority::{open_amount, open_claim_seq, ClaimState, PriorityClaim};
use crate::reconcile::{held_assets, owed_claims, owed_to};
use crate::accounts::{balance_of, Account};
use crate::idmap::sum_by;
use crate::queue::queued_amount;
use crate::reports::{
    array, escaped, id_array_json, json_escape, quoted, redemption_text, reportable, string_array_json, vault_claims,
    ProtocolReport,
};
use crate::vault::{RedemptionStatus, RedemptionTicket};
use crate::queue::{lemma_next_unique, service_order, QueueItem};
use crate::text::{decimal, decimal_string, str_eq};
use crate::vault::RedemptionKind;
use crate::clock::{EpochDay, WindowKind};

verus! {

broadcast use crate::amount::group_amount;

/// What up to three claims owe a vault, entry by entry.
proof fn lemma_owed_list(ce: Seq<(u64, PriorityClaim)>, k: u64)
    ensures
        ce.len() == 0 ==> owed_claims(ce, k) == 0,
        ce.len() == 1 ==> owed_claims(ce, k) == owed_to(ce[0].1, k),
        ce.len() == 2 ==> owed_claims(ce, k) == owed_to(ce[0].1, k) + owed_to(ce[1].1, k),
        ce.len() == 3 ==> owed_claims(ce, k) == owed_to(ce[0].1, k) + owed_to(ce[1].1, k) + owed_to(ce[2].1, k),
{
    if ce.len() >= 1 && ce.len() <= 3 {
        let a = ce.drop_last();
        assert(owed_claims(ce, k) == owed_claims(a, k) + owed_to(ce[ce.len() - 1].1, k));
        if a.len() >= 1 {
            let b = a.drop_last();
            assert(owed_claims(a, k) == owed_claims(b, k) + owed_to(ce[a.len() - 1].1, k));
            if b.len() >= 1 {
                let c = b.drop_last();
                assert(owed_claims(b, k) == owed_claims(c, k) + owed_to(ce[0].1, k));
                assert(owed_claims(c, k) == 0);
            } else {
                assert(owed_claims(b, k) == 0);
            }
        } else {
            assert(owed_claims(a, k) == 0);
        }
    }
}

/// What four accounts hold of an asset, account by account.
proof fn lemma_held_four(es: Seq<(u64, Account)>, k: u64)
    requires
        es.len() == 4,
    ensures
        held_assets(es, k) == balance_of(es[0].1.spec_portfolio().assets_view(), k) + balance_of(
            es[1].1.spec_portfolio().assets_view(),
            k,
        ) + balance_of(es[2].1.spec_portfolio().assets_view(), k) + balance_of(es[3].1.spec_portfolio().assets_view(), k),
{
    let s3 = es.drop_last();
    let s2 = s3.drop_last();
    let s1 = s2.drop_last();
    let s0 = s1.drop_last();
    assert(held_assets(es, k) == held_assets(s3, k) + balance_of(es[3].1.spec_portfolio().assets_view(), k));
    assert(held_assets(s3, k) == held_assets(s2, k) + balance_of(es[2].1.spec_portfolio().assets_view(), k));
    assert(held_assets(s2, k) == held_assets(s1, k) + balance_of(es[1].1.spec_portfolio().assets_view(), k));
    assert(held_assets(s1, k) == held_assets(s0, k) + balance_of(es[0].1.spec_portfolio().assets_view(), k));
    assert(held_assets(s0, k) == 0);
}

/// The output of the report scenario: the JSON of a report of the fixture.
pub open spec fn report_output(s: Seq<char>) -> bool {
    exists|e: CrownEngine, rep: ProtocolReport| #![trigger e.is_fixture(), rep.describes(e)]
        e.is_fixture() && rep.describes(e) && s == rep.json()
}

/// The report of the fixture engine as JSON.
#[verifier::spinoff_prover]
pub fn scenario_report() -> (r: CrownResult<String>)
    ensures
        r matches Ok(s) && report_output(s@),
{
    let engine = CrownEngine::fixture();
    proof {
        engine.lemma_wf_parts();
        assert(open_claim_seq(engine.spec_claims().claim_entries()).len() == 0);
        assert forall|i: int| 0 <= i < engine.vault_entries().len() implies {
            let id = (#[trigger] engine.vault_entries()[i]).1.spec_id();
            &&& queued_amount(engine.spec_queue().spec_items(id)) <= crate::amount::amount_max()
            &&& vault_claims(open_claim_seq(engine.spec_claims().claim_entries()), id) <= crate::amount::amount_max()
        } by {
            let id = engine.vault_entries()[i].1.spec_id();
            assert(engine.spec_queue().spec_items(id).len() == 0);
        }
        assert(reportable(engine));
    }
    match ProtocolReport::capture(&engine) {
        Ok(report) => {
            let json = report.to_json();
            proof {
                assert(engine.is_fixture() && report.describes(engine) && json@ == report.json());
            }
            Ok(json)
        },
        Err(e) => Err(e),
    }
}

/// The output of the limits scenario.
pub open spec fn limits_json(first: RedemptionId, second: RedemptionId, code: Seq<char>, active: nat, capacity: nat) -> Seq<
    char,
> {
    "{\"scenario\":\"limits\",\"first\":\""@ + redemption_text(first) + "\",\"second\":\""@ + redemption_text(second)
        + "\",\"rejectedCode\":\""@ + escaped(code) + "\",\"activeAfterCancel\":"@ + decimal(active)
        + ",\"capacityAfterCancel\":"@ + decimal(capacity) + "}"@
}

/// The output of the limits scenario.
pub open spec fn limits_output(s: Seq<char>) -> bool {
    s == limits_json(RedemptionId::spec_new(1), RedemptionId::spec_new(2), "limit_exceeded"@, 0, 1500)
}

/// Bob redeems 900 shares in the priority lane; a further 200 are refused
/// by the per-account priority limit; cancelling the first gives its daily
/// volume and priority capacity back, and the same 900 are then accepted.
#[verifier::spinoff_prover]
pub fn scenario_limits() -> (r: CrownResult<String>)
    ensures
        r matches Ok(s) && limits_output(s@),
{
    let mut engine = CrownEngine::fixture();
    proof {
        engine.lemma_fixture_lookup();
        lemma_error_codes();
    }
    let vault = engine.first_vault_id()?;
    let bob = engine.account_id("bob")?;
    let ghost e0 = engine;
    proof {
        VaultId::lemma_view(vault, VaultId::spec_new(1), 1);
        AccountId::lemma_view(bob, AccountId::spec_new(2), 2);
        assert(bob@ == 2);
    }
    let big = Amount::from_u64(900);
    proof {
        assert(e0.request_refusal(bob, vault, big, RedemptionKind::Priority).len() == 0);
        assert(e0.request_late_refusal(bob, vault, big, RedemptionKind::Priority).len() == 0);
    }
    let requested = engine.request_redemption(bob, vault, big, RedemptionKind::Priority);
    let ghost e1 = engine;
    proof {
        assert forall|k: u64| #[trigger] e1.spec_accounts().spec_accounts().contains_key(k) implies e1.spec_accounts().spec_accounts()[k].spec_portfolio().assets_view()
            == Map::<u64, Amount>::empty() by {
            assert(e0.spec_accounts().spec_accounts().contains_key(k));
        }
        e1.lemma_no_assets();
        RedemptionId::lemma_view(RedemptionId::spec_new(1), RedemptionId::spec_new(1), 1);
        let c1 = e1.spec_claims().spec_claims()[1];
        assert(e1.spec_claims().spec_claims() =~= Map::<u64, PriorityClaim>::empty().insert(1, c1));
        e1.lemma_dense_claims(1, 1);
        let ce = e1.spec_claims().claim_entries();
        assert(ce[0].1 == c1);
        assert(ce.drop_last() =~= Seq::<(u64, PriorityClaim)>::empty());
        assert(900nat * 8000nat / 8000nat == 900nat);
        assert(c1.spec_amount()@ == 900);
        assert forall|k: u64| #[trigger] owed_claims(ce, k) <= e1.reserve_of(k) by {
            assert(sum_by(ce.drop_last(), |c: PriorityClaim| owed_to(c, k)) == 0);
            assert(owed_claims(ce, k) == owed_to(c1, k));
        }
        e1.lemma_checks_pass();
    }
    let first = requested?;
    let extra = Amount::from_u64(200);
    proof {
        let pol = e0.spec_vaults()[1].spec_policy();
        assert(e1.request_applied(&e0, bob, vault, big, RedemptionKind::Priority));
        let a0 = e0.spec_accounts().spec_accounts()[2];
        let a1 = e1.spec_accounts().spec_accounts()[2];
        assert(a0.spec_tier() == AccountTier::Vip);
        assert(a1.spec_tier() == AccountTier::Vip);
        assert(a0.spec_portfolio().spec_share(vault) == 2000);
        assert(a1.spec_portfolio().spec_share(vault) == 1100);
        assert(e1.spec_vaults().contains_key(1));
        assert(e1.spec_vaults()[1].spec_policy() == pol);
        assert(e1.spec_queue().spec_items(vault).len() == 1);
        assert(e1.spec_limits().spec_bucket(bob, vault, e1.spec_day()).spec_active() == 900);
        assert(e1.request_refusal(bob, vault, extra, RedemptionKind::Priority) == "limit_exceeded"@);
    }
    let rejected_code = match engine.request_redemption(bob, vault, extra, RedemptionKind::Priority) {
        Ok(_) => String::from_str("accepted"),
        Err(err) => String::from_str(err.code()),
    };
    proof {
        assert(engine == e1);
        assert(rejected_code@ == "limit_exceeded"@);
    }
    proof {
        CrownEngine::lemma_request_home(e0, e1, bob, vault, big, RedemptionKind::Priority);
        assert(first.redemption_id == RedemptionId::spec_new(1));
        assert(e1.cancel_late_refusal(first.redemption_id).len() == 0);
    }
    let cancelled = engine.cancel_redemption(first.redemption_id);
    let ghost e3 = engine;
    proof {
        assert forall|k: u64| #[trigger] e3.spec_accounts().spec_accounts().contains_key(k) implies e3.spec_accounts().spec_accounts()[k].spec_portfolio().assets_view()
            == Map::<u64, Amount>::empty() by {
            assert(e1.spec_accounts().spec_accounts().contains_key(k));
        }
        e3.lemma_no_assets();
        CrownEngine::law_cancel_keeps_coverage(&e1, &e3, first.redemption_id);
        assert forall|k: u64| #[trigger] owed_claims(e3.spec_claims().claim_entries(), k) <= e3.reserve_of(k) by {
            assert(owed_claims(e1.spec_claims().claim_entries(), k) <= e1.reserve_of(k));
        }
        e3.lemma_checks_pass();
    }
    cancelled?;
    proof {
        CrownEngine::law_cancel_undoes_request(e0, e1, e3, bob, vault, big, RedemptionKind::Priority);
    }
    let day = engine.day();
    let active = engine.daily_active(bob, vault, day)?;
    let capacity = engine.priority_available(vault, day)?;
    proof {
        assert(e3.request_refusal(bob, vault, big, RedemptionKind::Priority).len() == 0);
        assert(e3.request_late_refusal(bob, vault, big, RedemptionKind::Priority).len() == 0);
    }
    let requested = engine.request_redemption(bob, vault, big, RedemptionKind::Priority);
    let ghost e4 = engine;
    proof {
        assert forall|k: u64| #[trigger] e4.spec_accounts().spec_accounts().contains_key(k) implies e4.spec_accounts().spec_accounts()[k].spec_portfolio().assets_view()
            == Map::<u64, Amount>::empty() by {
            assert(e3.spec_accounts().spec_accounts().contains_key(k));
        }
        e4.lemma_no_assets();
        RedemptionId::lemma_view(RedemptionId::spec_new(2), RedemptionId::spec_new(2), 2);
        let c1 = e3.spec_claims().spec_claims()[1];
        let c2 = e4.spec_claims().spec_claims()[2];
        assert(e4.spec_claims().spec_claims() =~= Map::<u64, PriorityClaim>::empty().insert(1, c1).insert(2, c2));
        e4.lemma_dense_claims(1, 2);
        let ce = e4.spec_claims().claim_entries();
        assert(ce[0].1 == c1);
        assert(ce[1].1 == c2);
        assert(ce.drop_last().drop_last() =~= Seq::<(u64, PriorityClaim)>::empty());
        assert(900nat * 8000nat / 8000nat == 900nat);
        e1.spec_claims().spec_claims()[1].lemma_with_state(ClaimState::Released);
        assert(open_amount(c1) == 0);
        assert(c2.spec_amount()@ == 900);
        assert forall|k: u64| #[trigger] owed_claims(ce, k) <= e4.reserve_of(k) by {
            assert(sum_by(ce.drop_last().drop_last(), |c: PriorityClaim| owed_to(c, k)) == 0);
            assert(sum_by(ce.drop_last(), |c: PriorityClaim| owed_to(c, k)) == owed_to(c1, k));
            assert(owed_claims(ce, k) == owed_to(c1, k) + owed_to(c2, k));
        }
        e4.lemma_checks_pass();
    }
    let second = requested?;
    let mut out = String::from_str("{\"scenario\":\"limits\",\"first\":\"");
    out.append(first.redemption_id.label().as_str());
    out.append("\",\"second\":\"");
    out.append(second.redemption_id.label().as_str());
    out.append("\",\"rejectedCode\":\"");
    out.append(json_escape(rejected_code.as_str()).as_str());
    out.append("\",\"activeAfterCancel\":");
    out.append(decimal_string(active.raw()).as_str());
    out.append(",\"capacityAfterCancel\":");
    out.append(decimal_string(capacity.raw()).as_str());
    out.append("}");
    Ok(out)
}

/// The identifiers of the tickets, in order.
fn ticket_ids(tickets: &Vec<RedemptionTicket>) -> (r: Vec<RedemptionId>)
    ensures
        r@ == tickets@.map_values(|t: RedemptionTicket| t.spec_id()),
{
    let mut out: Vec<RedemptionId> = Vec::new();
    let mut i: usize = 0;
    while i < tickets.len()
        invariant
            i <= tickets@.len(),
            out@ == tickets@.take(i as int).map_values(|t: RedemptionTicket| t.spec_id()),
        decreases tickets@.len() - i,
    {
        proof {
            assert(tickets@.take(i as int + 1).map_values(|t: RedemptionTicket| t.spec_id()) =~= tickets@.take(i as int).map_values(
                |t: RedemptionTicket| t.spec_id(),
            ).push(tickets@[i as int].spec_id()));
        }
        out.push(tickets[i].id());
        i = i + 1;
    }
    proof {
        assert(tickets@.take(tickets@.len() as int) =~= tickets@);
    }
    out
}

/// The JSON array of the identifiers.
pub open spec fn ids_json(ids: Seq<RedemptionId>) -> Seq<char> {
    array(ids.map_values(|id: RedemptionId| quoted(redemption_text(id))))
}

/// The output of the cancellation scenario.
pub open spec fn cancel_json(
    cancelled: RedemptionId,
    status: Seq<char>,
    code: Seq<char>,
    replacement: RedemptionId,
    processed: Seq<RedemptionId>,
    shares: nat,
    capacity: nat,
    withdrawn: nat,
) -> Seq<char> {
    "{\"scenario\":\"cancel\",\"cancelled\":\""@ + redemption_text(cancelled) + "\",\"cancelledStatus\":\""@ + status
        + "\",\"withdrawCancelledCode\":\""@ + escaped(code) + "\",\"replacement\":\""@ + redemption_text(replacement)
        + "\",\"processed\":"@ + ids_json(processed) + ",\"sharesAfterCancel\":"@ + decimal(shares)
        + ",\"capacityAfterCancel\":"@ + decimal(capacity) + ",\"withdrawn\":"@ + decimal(withdrawn) + "}"@
}

/// The output of the cancel scenario.
pub open spec fn cancel_output(s: Seq<char>) -> bool {
    s == cancel_json(
        RedemptionId::spec_new(1),
        "cancelled"@,
        "invalid_status"@,
        RedemptionId::spec_new(2),
        seq![RedemptionId::spec_new(2)],
        2000,
        1500,
        500,
    )
}

/// Bob redeems 500 shares in the priority lane and cancels; the cancelled
/// ticket cannot be withdrawn, his shares and the priority capacity are
/// back; a new request of 500 is scheduled and withdrawn a day later.
#[verifier::spinoff_prover]
pub fn scenario_cancel() -> (r: CrownResult<String>)
    ensures
        r matches Ok(s) && cancel_output(s@),
{
    let mut engine = CrownEngine::fixture();
    proof {
        engine.lemma_fixture_lookup();
        lemma_error_codes();
    }
    let vault = engine.first_vault_id()?;
    let bob = engine.account_id("bob")?;
    let ghost e0 = engine;
    proof {
        VaultId::lemma_view(vault, VaultId::spec_new(1), 1);
        AccountId::lemma_view(bob, AccountId::spec_new(2), 2);
    }
    let amount = Amount::from_u64(500);
    proof {
        assert(e0.request_refusal(bob, vault, amount, RedemptionKind::Priority).len() == 0);
        assert(e0.request_late_refusal(bob, vault, amount, RedemptionKind::Priority).len() == 0);
    }
    let requested = engine.request_redemption(bob, vault, amount, RedemptionKind::Priority);
    let ghost e1 = engine;
    let ghost c1 = e1.spec_claims().spec_claims()[1];
    proof {
        assert forall|k: u64| #[trigger] e1.spec_accounts().spec_accounts().contains_key(k) implies e1.spec_accounts().spec_accounts()[k].spec_portfolio().assets_view()
            == Map::<u64, Amount>::empty() by {
            assert(e0.spec_accounts().spec_accounts().contains_key(k));
        }
        e1.lemma_no_assets();
        RedemptionId::lemma_view(RedemptionId::spec_new(1), RedemptionId::spec_new(1), 1);
        assert(e1.spec_claims().spec_claims() =~= Map::<u64, PriorityClaim>::empty().insert(1, c1));
        e1.lemma_dense_claims(1, 1);
        assert(500nat * 8000nat / 8000nat == 500nat);
        assert(c1.spec_amount()@ == 500);
        assert forall|k: u64| #[trigger] owed_claims(e1.spec_claims().claim_entries(), k) <= e1.reserve_of(k) by {
            lemma_owed_list(e1.spec_claims().claim_entries(), k);
        }
        e1.lemma_checks_pass();
    }
    let first = requested?;
    proof {
        CrownEngine::lemma_request_home(e0, e1, bob, vault, amount, RedemptionKind::Priority);
        assert(first.redemption_id == RedemptionId::spec_new(1));
        assert(e1.cancel_late_refusal(first.redemption_id).len() == 0);
    }
    let cancel_result = engine.cancel_redemption(first.redemption_id);
    let ghost e2 = engine;
    proof {
        assert forall|k: u64| #[trigger] e2.spec_accounts().spec_accounts().contains_key(k) implies e2.spec_accounts().spec_accounts()[k].spec_portfolio().assets_view()
            == Map::<u64, Amount>::empty() by {
            assert(e1.spec_accounts().spec_accounts().contains_key(k));
        }
        e2.lemma_no_assets();
        CrownEngine::law_cancel_keeps_coverage(&e1, &e2, first.redemption_id);
        assert forall|k: u64| #[trigger] owed_claims(e2.spec_claims().claim_entries(), k) <= e2.reserve_of(k) by {
            assert(owed_claims(e1.spec_claims().claim_entries(), k) <= e1.reserve_of(k));
        }
        e2.lemma_checks_pass();
    }
    let ghost c1r = e2.spec_claims().spec_claims()[1];
    proof {
        c1.lemma_with_state(ClaimState::Released);
        assert(c1r == c1.with_state(ClaimState::Released));
        assert(open_amount(c1r) == 0);
    }
    let cancelled = cancel_result?;
    proof {
        CrownEngine::law_cancel_undoes_request(e0, e1, e2, bob, vault, amount, RedemptionKind::Priority);
    }
    let withdraw_cancelled_code = match engine.withdraw_ticket(first.redemption_id) {
        Ok(_) => String::from_str("accepted"),
        Err(err) => String::from_str(err.code()),
    };
    proof {
        assert(withdraw_cancelled_code@ == "invalid_status"@);
        assert(engine == e2);
        engine.lemma_wf_parts();
        engine.spec_accounts().lemma_wf();
    }
    let shares_after_cancel = engine.accounts().get(bob)?.portfolio().share_balance(vault).raw();
    let day = engine.day();
    let capacity_after_cancel = engine.priority_available(vault, day)?;
    proof {
        assert(e2.request_refusal(bob, vault, amount, RedemptionKind::Priority).len() == 0);
        assert(e2.request_late_refusal(bob, vault, amount, RedemptionKind::Priority).len() == 0);
    }
    let requested = engine.request_redemption(bob, vault, amount, RedemptionKind::Priority);
    let ghost e3 = engine;
    let ghost c2 = e3.spec_claims().spec_claims()[2];
    proof {
        assert forall|k: u64| #[trigger] e3.spec_accounts().spec_accounts().contains_key(k) implies e3.spec_accounts().spec_accounts()[k].spec_portfolio().assets_view()
            == Map::<u64, Amount>::empty() by {
            assert(e2.spec_accounts().spec_accounts().contains_key(k));
        }
        e3.lemma_no_assets();
        RedemptionId::lemma_view(RedemptionId::spec_new(2), RedemptionId::spec_new(2), 2);
        assert(e3.spec_claims().spec_claims() =~= Map::<u64, PriorityClaim>::empty().insert(1, c1r).insert(2, c2));
        e3.lemma_dense_claims(1, 2);
        assert(c2.spec_amount()@ == 500);
        assert forall|k: u64| #[trigger] owed_claims(e3.spec_claims().claim_entries(), k) <= e3.reserve_of(k) by {
            lemma_owed_list(e3.spec_claims().claim_entries(), k);
        }
        e3.lemma_checks_pass();
    }
    let second = requested?;
    proof {
        let id2 = RedemptionId::spec_new(2);
        RedemptionId::lemma_view(id2, id2, 2);
        let q1 = e1.spec_queue().spec_items(vault);
        assert(q1.len() == 1);
        assert(q1[0].spec_redemption_id() == RedemptionId::spec_new(1));
        assert(e2.spec_queue().spec_items(vault) =~= Seq::<QueueItem>::empty());
        let q = e3.spec_queue().spec_items(vault);
        assert(q.len() == 1);
        assert(crate::queue::is_next(q, 0));
        lemma_next_unique(q, 0);
        assert(q.remove(0) =~= Seq::<QueueItem>::empty());
        assert(service_order(q.remove(0), 0) =~= Seq::<QueueItem>::empty());
        assert(service_order(q, 1) =~= seq![q[0]]);
        assert(q[0].spec_redemption_id() == id2);
        let m = e3.spec_vaults()[1].spec_tickets();
        assert(m.contains_key(2));
        assert(m[2].spec_status() is Queued);
    }
    let processing = engine.process_vault_queue(vault, 1);
    let ghost e4 = engine;
    proof {
        let q = e3.spec_queue().spec_items(vault);
        let m = e3.spec_vaults()[1].spec_tickets();
        m[2].lemma_with_status(RedemptionStatus::PendingUnlock);
        let s1 = service_order(q, 1);
        assert(s1.last().spec_lane() is Priority);
        assert(s1.drop_last() =~= Seq::<QueueItem>::empty());
        assert(crate::engine::standard_claims(e3.spec_claims().spec_claims(), m, s1.drop_last()) == e3.spec_claims().spec_claims());
        assert(crate::engine::standard_claims(e3.spec_claims().spec_claims(), m, s1) == e3.spec_claims().spec_claims());
        assert(e4.spec_claims().spec_claims()[2] == e3.spec_claims().spec_claims()[2]);
        assert(e4.spec_claims().spec_claims() == e3.spec_claims().spec_claims());
        e3.spec_claims().lemma_view_entries();
        e4.spec_claims().lemma_view_entries();
        e4.lemma_dense_claims(1, 2);
        e3.lemma_dense_claims(1, 2);
        assert(e4.spec_claims().claim_entries() =~= e3.spec_claims().claim_entries());
        assert forall|k: u64| #[trigger] e4.spec_accounts().spec_accounts().contains_key(k) implies e4.spec_accounts().spec_accounts()[k].spec_portfolio().assets_view()
            == Map::<u64, Amount>::empty() by {
            assert(e3.spec_accounts().spec_accounts().contains_key(k));
        }
        e4.lemma_no_assets();
        assert forall|k: u64| #[trigger] owed_claims(e4.spec_claims().claim_entries(), k) <= e4.reserve_of(k) by {
            assert(owed_claims(e3.spec_claims().claim_entries(), k) <= e3.reserve_of(k));
        }
        e4.lemma_checks_pass();
    }
    let processed = processing?;
    proof {
        assert(processed@.len() == 1);
        assert(processed@[0].spec_id() == RedemptionId::spec_new(2));
    }
    let advanced = engine.advance_days(1);
    proof {
        assert(advanced is Ok);
    }
    let ghost e5 = engine;
    proof {
        let id2 = RedemptionId::spec_new(2);
        let q = e3.spec_queue().spec_items(vault);
        let m = e3.spec_vaults()[1].spec_tickets();
        let s1 = service_order(q, 1);
        assert(s1.drop_last() =~= Seq::<QueueItem>::empty());
        assert(crate::engine::scheduled(m, s1.drop_last()) == m);
        assert(e5.spec_vaults()[1].spec_tickets() == m.insert(2, m[2].with_status(RedemptionStatus::PendingUnlock)));
        m[2].lemma_with_status(RedemptionStatus::PendingUnlock);
        assert(e5.spec_vaults().dom() =~= set![1u64]);
        e5.lemma_home_unique(id2, 1);
        EpochDay::lemma_view(EpochDay::spec_new(1), EpochDay::spec_new(1), 1);
        assert(c2.spec_unlock_day()@ == 1);
        assert(e5.spec_claims().spec_claims()[2] == c2);
        assert(e5.withdraw_refusal(second.redemption_id).len() == 0);
        assert(e5.withdraw_late_refusal(second.redemption_id).len() == 0);
    }
    let withdrawal_result = engine.withdraw_ticket(second.redemption_id);
    let ghost e6 = engine;
    proof {
        c2.lemma_with_state(crate::priority::ClaimState::Consumed);
        assert(e6.spec_claims().spec_claims() =~= Map::<u64, PriorityClaim>::empty().insert(1, c1r).insert(
            2,
            c2.with_state(crate::priority::ClaimState::Consumed),
        ));
        e6.lemma_dense_claims(1, 2);
        assert forall|k: u64| #[trigger] owed_claims(e6.spec_claims().claim_entries(), k) <= e6.reserve_of(k) by {
            lemma_owed_list(e6.spec_claims().claim_entries(), k);
        }
        assert(e6.spec_accounts().spec_accounts().dom() =~= set![1u64, 2u64, 3u64, 4u64]);
        e6.lemma_dense_accounts(4);
        assert forall|k: u64| #[trigger] held_assets(e6.spec_accounts().spec_entries(), k) <= crate::amount::amount_max() by {
            lemma_held_four(e6.spec_accounts().spec_entries(), k);
        }
        e6.lemma_checks_pass();
    }
    let withdrawal = withdrawal_result?;
    proof {
        let v2 = e2.spec_vaults()[1];
        assert(v2.spec_reserve() == 8000);
        assert(v2.spec_total_shares() == 8000);
        assert(amount@ * v2.spec_reserve() == 4000000) by (nonlinear_arith)
            requires
                amount@ == 500,
                v2.spec_reserve() == 8000,
        ;
        assert(4000000nat / 8000nat == 500nat);
        assert(v2.spec_pending() == 0);
        assert(v2.spec_liquid() == 8000);
        assert(crate::engine::quote_of(v2, amount) == amount@ * v2.spec_liquid() / v2.spec_total_shares());
        assert(crate::engine::quote_of(v2, amount) == 500);
        assert(withdrawal.amount@ == 500);
    }
    let ids = ticket_ids(&processed);
    proof {
        assert(ids@ =~= seq![RedemptionId::spec_new(2)]);
        RedemptionId::lemma_view(RedemptionId::spec_new(1), RedemptionId::spec_new(1), 1);
        assert(first.redemption_id == RedemptionId::spec_new(1));
        e1.spec_vaults()[1].spec_tickets()[1].lemma_with_status(RedemptionStatus::Cancelled);
        assert(cancelled.spec_id() == RedemptionId::spec_new(1));
        assert(cancelled.spec_status() == RedemptionStatus::Cancelled);
        assert(shares_after_cancel == 2000);
        assert(capacity_after_cancel@ == 1500);
        assert(second.redemption_id == RedemptionId::spec_new(2));
    }
    let mut out = String::from_str("{\"scenario\":\"cancel\",\"cancelled\":\"");
    out.append(cancelled.id().label().as_str());
    out.append("\",\"cancelledStatus\":\"");
    out.append(cancelled.status().label());
    out.append("\",\"withdrawCancelledCode\":\"");
    out.append(json_escape(withdraw_cancelled_code.as_str()).as_str());
    out.append("\",\"replacement\":\"");
    out.append(second.redemption_id.label().as_str());
    out.append("\",\"processed\":");
    out.append(id_array_json(ids.as_slice()).as_str());
    out.append(",\"sharesAfterCancel\":");
    out.append(decimal_string(shares_after_cancel).as_str());
    out.append(",\"capacityAfterCancel\":");
    out.append(decimal_string(capacity_after_cancel.raw()).as_str());
    out.append(",\"withdrawn\":");
    out.append(decimal_string(withdrawal.amount.raw()).as_str());
    out.append("}");
    Ok(out)
}

/// The JSON array of the texts as strings.
pub open spec fn texts_json(texts: Seq<Seq<char>>) -> Seq<char> {
    array(texts.map_values(|t: Seq<char>| quoted(t)))
}

/// The output of the ordering scenario.
pub open spec fn order_json(
    standard: RedemptionId,
    vip: RedemptionId,
    institutional: RedemptionId,
    queue: Seq<RedemptionId>,
    processed: Seq<RedemptionId>,
    labels: Seq<Seq<char>>,
    lanes: Seq<Seq<char>>,
) -> Seq<char> {
    "{\"scenario\":\"order\",\"standard\":\""@ + redemption_text(standard) + "\",\"vip\":\""@ + redemption_text(vip)
        + "\",\"institutional\":\""@ + redemption_text(institutional) + "\",\"queueOrder\":"@ + ids_json(queue)
        + ",\"processed\":"@ + ids_json(processed) + ",\"processedLabels\":"@ + texts_json(labels)
        + ",\"processedLanes\":"@ + texts_json(lanes) + "}"@
}

/// The labels of the tickets' accounts, in order; fails with
/// `MissingAccount` when an account is unknown.
fn ticket_labels(engine: &CrownEngine, tickets: &Vec<RedemptionTicket>) -> (r: CrownResult<Vec<String>>)
    requires
        engine.wf(),
    ensures
        ({
            let accts = engine.spec_accounts().spec_accounts();
            let known = forall|i: int| 0 <= i < tickets@.len() ==> accts.contains_key((#[trigger] tickets@[i]).spec_account()@);
            &&& !known ==> (r matches Err(e) && e is MissingAccount)
            &&& known ==> (r matches Ok(v) && v@.len() == tickets@.len() && forall|i: int| 0 <= i < v@.len()
                ==> (#[trigger] v@[i])@ == accts[tickets@[i].spec_account()@].spec_label())
        }),
{
    proof {
        engine.lemma_wf_parts();
    }
    let ghost accts = engine.spec_accounts().spec_accounts();
    let mut labels: Vec<String> = Vec::new();
    let mut i: usize = 0;
    while i < tickets.len()
        invariant
            engine.spec_accounts().wf(),
            accts == engine.spec_accounts().spec_accounts(),
            i <= tickets@.len(),
            labels@.len() == i,
            forall|j: int| 0 <= j < i ==> accts.contains_key((#[trigger] tickets@[j]).spec_account()@),
            forall|j: int| 0 <= j < i ==> (#[trigger] labels@[j])@ == accts[tickets@[j].spec_account()@].spec_label(),
        decreases tickets@.len() - i,
    {
        let account = engine.accounts().get(tickets[i].account())?;
        labels.push(String::from_str(account.label()));
        i = i + 1;
    }
    Ok(labels)
}

/// The account kinds' lane labels of the tickets, in order.
fn lane_labels(tickets: &Vec<RedemptionTicket>) -> (r: Vec<String>)
    ensures
        r@.len() == tickets@.len(),
        forall|i: int| 0 <= i < r@.len() ==> (#[trigger] r@[i])@ == tickets@[i].spec_kind().spec_label(),
{
    let mut out: Vec<String> = Vec::new();
    let mut i: usize = 0;
    while i < tickets.len()
        invariant
            i <= tickets@.len(),
            out@.len() == i,
            forall|j: int| 0 <= j < i ==> (#[trigger] out@[j])@ == tickets@[j].spec_kind().spec_label(),
        decreases tickets@.len() - i,
    {
        out.push(String::from_str(tickets[i].kind().label()));
        i = i + 1;
    }
    out
}

/// The output of the order scenario.
pub open spec fn order_output(s: Seq<char>) -> bool {
    let r1 = RedemptionId::spec_new(1);
    let r2 = RedemptionId::spec_new(2);
    let r3 = RedemptionId::spec_new(3);
    s == order_json(
        r1,
        r2,
        r3,
        seq![r3, r2, r1],
        seq![r3, r2, r1],
        seq!["carol"@, "bob"@, "alice"@],
        seq!["priority"@, "priority"@, "standard"@],
    )
}

/// Alice (standard lane), bob (VIP, priority lane) and carol
/// (institutional, priority lane) each redeem 100 shares; the queue serves
/// carol, then bob, then alice, and processing follows that order.
#[verifier::spinoff_prover]
pub fn scenario_order() -> (r: CrownResult<String>)
    ensures
        r matches Ok(s) && order_output(s@),
{
    let mut engine = CrownEngine::fixture();
    proof {
        engine.lemma_fixture_lookup();
        lemma_error_codes();
    }
    let vault = engine.first_vault_id()?;
    let alice = engine.account_id("alice")?;
    let bob = engine.account_id("bob")?;
    let carol = engine.account_id("carol")?;
    let ghost e0 = engine;
    proof {
        VaultId::lemma_view(vault, VaultId::spec_new(1), 1);
        AccountId::lemma_view(alice, AccountId::spec_new(1), 1);
        AccountId::lemma_view(bob, AccountId::spec_new(2), 2);
        AccountId::lemma_view(carol, AccountId::spec_new(3), 3);
    }
    let amount = Amount::from_u64(100);
    proof {
        let ws = e0.spec_vaults()[1].spec_config().window_entries();
        assert(crate::engine::window_from(ws, 1, WindowKind::Standard) == Some(ws[1].1));
        assert(crate::engine::window_from(ws, 0, WindowKind::Standard) == Some(ws[1].1));
        assert(e0.request_refusal(alice, vault, amount, RedemptionKind::Standard).len() == 0);
        assert(e0.request_late_refusal(alice, vault, amount, RedemptionKind::Standard).len() == 0);
    }
    let requested = engine.request_redemption(alice, vault, amount, RedemptionKind::Standard);
    let ghost e1 = engine;
    proof {
        assert forall|k: u64| #[trigger] e1.spec_accounts().spec_accounts().contains_key(k) implies e1.spec_accounts().spec_accounts()[k].spec_portfolio().assets_view()
            == Map::<u64, Amount>::empty() by {
            assert(e0.spec_accounts().spec_accounts().contains_key(k));
        }
        e1.lemma_no_assets();
        e1.lemma_dense_claims(1, 0);
        assert forall|k: u64| #[trigger] owed_claims(e1.spec_claims().claim_entries(), k) <= e1.reserve_of(k) by {
            lemma_owed_list(e1.spec_claims().claim_entries(), k);
        }
        e1.lemma_checks_pass();
        assert(e1.request_refusal(bob, vault, amount, RedemptionKind::Priority).len() == 0);
        assert(e1.request_late_refusal(bob, vault, amount, RedemptionKind::Priority).len() == 0);
    }
    let standard = requested?;
    let requested = engine.request_redemption(bob, vault, amount, RedemptionKind::Priority);
    let ghost e2 = engine;
    let ghost cb = e2.spec_claims().spec_claims()[2];
    proof {
        assert forall|k: u64| #[trigger] e2.spec_accounts().spec_accounts().contains_key(k) implies e2.spec_accounts().spec_accounts()[k].spec_portfolio().assets_view()
            == Map::<u64, Amount>::empty() by {
            assert(e1.spec_accounts().spec_accounts().contains_key(k));
        }
        e2.lemma_no_assets();
        RedemptionId::lemma_view(RedemptionId::spec_new(2), RedemptionId::spec_new(2), 2);
        assert(e2.spec_claims().spec_claims() =~= Map::<u64, PriorityClaim>::empty().insert(2, cb));
        e2.lemma_dense_claims(2, 1);
        assert(e1.spec_vaults()[1].spec_liquid() == 7900);
        assert(100nat * 7900nat / 7900nat == 100nat);
        assert(cb.spec_amount()@ == 100);
        assert forall|k: u64| #[trigger] owed_claims(e2.spec_claims().claim_entries(), k) <= e2.reserve_of(k) by {
            lemma_owed_list(e2.spec_claims().claim_entries(), k);
        }
        e2.lemma_checks_pass();
        assert(e2.request_refusal(carol, vault, amount, RedemptionKind::Priority).len() == 0);
        assert(e2.request_late_refusal(carol, vault, amount, RedemptionKind::Priority).len() == 0);
    }
    let vip = requested?;
    let requested = engine.request_redemption(carol, vault, amount, RedemptionKind::Priority);
    let ghost e3 = engine;
    let ghost cc = e3.spec_claims().spec_claims()[3];
    proof {
        assert forall|k: u64| #[trigger] e3.spec_accounts().spec_accounts().contains_key(k) implies e3.spec_accounts().spec_accounts()[k].spec_portfolio().assets_view()
            == Map::<u64, Amount>::empty() by {
            assert(e2.spec_accounts().spec_accounts().contains_key(k));
        }
        e3.lemma_no_assets();
        RedemptionId::lemma_view(RedemptionId::spec_new(3), RedemptionId::spec_new(3), 3);
        assert(e3.spec_claims().spec_claims() =~= Map::<u64, PriorityClaim>::empty().insert(2, cb).insert(3, cc));
        e3.lemma_dense_claims(2, 2);
        assert(e2.spec_vaults()[1].spec_liquid() == 7800);
        assert(100nat * 7800nat / 7800nat == 100nat);
        assert(cc.spec_amount()@ == 100);
        assert forall|k: u64| #[trigger] owed_claims(e3.spec_claims().claim_entries(), k) <= e3.reserve_of(k) by {
            lemma_owed_list(e3.spec_claims().claim_entries(), k);
        }
        e3.lemma_checks_pass();
    }
    let institutional = requested?;
    proof {
        let q = e3.spec_queue().spec_items(vault);
        assert(q.len() == 3);
        assert(q[0].spec_score() == 110);
        assert(q[1].spec_score() == 1060);
        assert(q[2].spec_score() == 1090);
        assert(crate::queue::is_next(q, 2));
        lemma_next_unique(q, 2);
        let q2 = q.remove(2);
        assert(q2 =~= seq![q[0], q[1]]);
        assert(crate::queue::is_next(q2, 1));
        lemma_next_unique(q2, 1);
        let q1 = q2.remove(1);
        assert(q1 =~= seq![q[0]]);
        assert(crate::queue::is_next(q1, 0));
        lemma_next_unique(q1, 0);
        assert(service_order(q1.remove(0), 0) =~= Seq::<QueueItem>::empty());
        assert(service_order(q1, 1) =~= seq![q[0]]);
        assert(service_order(q2, 2) =~= seq![q[1], q[0]]);
        assert(service_order(q, 3) =~= seq![q[2], q[1], q[0]]);
        RedemptionId::lemma_view(RedemptionId::spec_new(1), RedemptionId::spec_new(1), 1);
        RedemptionId::lemma_view(RedemptionId::spec_new(2), RedemptionId::spec_new(2), 2);
        RedemptionId::lemma_view(RedemptionId::spec_new(3), RedemptionId::spec_new(3), 3);
        assert(q[0].spec_redemption_id() == RedemptionId::spec_new(1));
        assert(q[1].spec_redemption_id() == RedemptionId::spec_new(2));
        assert(q[2].spec_redemption_id() == RedemptionId::spec_new(3));
        let m = e3.spec_vaults()[1].spec_tickets();
        let c = e3.spec_claims().spec_claims();
        assert(m.contains_key(1) && m[1].spec_status() is Queued && m[1].spec_account() == alice);
        assert(m.contains_key(2) && m[2].spec_status() is Queued && m[2].spec_account() == bob);
        assert(m.contains_key(3) && m[3].spec_status() is Queued && m[3].spec_account() == carol);
        assert(!c.contains_key(1));
    }
    let queue_order = engine.queue_order(vault);
    let processing = engine.process_vault_queue(vault, 3);
    let ghost e4 = engine;
    proof {
        let q = e3.spec_queue().spec_items(vault);
        let m = e3.spec_vaults()[1].spec_tickets();
        let c = e3.spec_claims().spec_claims();
        let s3 = service_order(q, 3);
        assert(s3.drop_last() =~= seq![q[2], q[1]]);
        assert(s3.drop_last().drop_last() =~= seq![q[2]]);
        assert(s3.drop_last().drop_last().drop_last() =~= Seq::<QueueItem>::empty());
        assert(crate::engine::standard_claims(c, m, s3.drop_last().drop_last().drop_last()) == c);
        assert(crate::engine::standard_claims(c, m, s3.drop_last().drop_last()) == c);
        assert(crate::engine::standard_claims(c, m, s3.drop_last()) == c);
        let ca = crate::engine::standard_claim(m[1]);
        assert(e4.spec_claims().spec_claims() == c.insert(1, ca));
        let t1 = m[1];
        PriorityClaim::lemma_from_draft(crate::priority::PriorityClaimDraft {
            redemption_id: t1.spec_id(),
            account: t1.spec_account(),
            vault: t1.spec_vault(),
            asset: t1.spec_asset(),
            amount: t1.spec_quoted(),
            unlock_day: t1.spec_unlock_day(),
            window: t1.spec_window(),
            lane: crate::queue::Lane::Standard,
        });
        assert(800000nat / 8000nat == 100nat);
        assert(ca.spec_amount()@ == 100);
        assert(e4.spec_claims().spec_claims() =~= Map::<u64, PriorityClaim>::empty().insert(1, ca).insert(2, cb).insert(3, cc));
        e4.lemma_dense_claims(1, 3);
        assert forall|k: u64| #[trigger] e4.spec_accounts().spec_accounts().contains_key(k) implies e4.spec_accounts().spec_accounts()[k].spec_portfolio().assets_view()
            == Map::<u64, Amount>::empty() by {
            assert(e3.spec_accounts().spec_accounts().contains_key(k));
        }
        e4.lemma_no_assets();
        assert forall|k: u64| #[trigger] owed_claims(e4.spec_claims().claim_entries(), k) <= e4.reserve_of(k) by {
            lemma_owed_list(e4.spec_claims().claim_entries(), k);
        }
        e4.lemma_checks_pass();
    }
    let processed = processing?;
    let ghost r1 = RedemptionId::spec_new(1);
    let ghost r2 = RedemptionId::spec_new(2);
    let ghost r3 = RedemptionId::spec_new(3);
    proof {
        let m = e3.spec_vaults()[1].spec_tickets();
        m[1].lemma_with_status(RedemptionStatus::PendingUnlock);
        m[2].lemma_with_status(RedemptionStatus::PendingUnlock);
        m[3].lemma_with_status(RedemptionStatus::PendingUnlock);
        assert(queue_order@ =~= seq![r3, r2, r1]);
        assert(processed@.len() == 3);
        assert(processed@[0].spec_id() == r3 && processed@[0].spec_account() == carol && processed@[0].spec_kind() is Priority);
        assert(processed@[1].spec_id() == r2 && processed@[1].spec_account() == bob && processed@[1].spec_kind() is Priority);
        assert(processed@[2].spec_id() == r1 && processed@[2].spec_account() == alice && processed@[2].spec_kind() is Standard);
        let accts = e4.spec_accounts().spec_accounts();
        assert(accts.contains_key(1) && accts[1].spec_label() == "alice"@);
        assert(accts.contains_key(2) && accts[2].spec_label() == "bob"@);
        assert(accts.contains_key(3) && accts[3].spec_label() == "carol"@);
    }
    let processed_ids = ticket_ids(&processed);
    let processed_labels = ticket_labels(&engine, &processed)?;
    let processed_lanes = lane_labels(&processed);
    proof {
        assert(processed_ids@ =~= seq![r3, r2, r1]);
        assert(processed_labels@.map_values(|v: String| quoted(v@)) =~= seq!["carol"@, "bob"@, "alice"@].map_values(
            |t: Seq<char>| quoted(t),
        ));
        assert(processed_lanes@.map_values(|v: String| quoted(v@)) =~= seq!["priority"@, "priority"@, "standard"@].map_values(
            |t: Seq<char>| quoted(t),
        ));
    }
    let mut out = String::from_str("{\"scenario\":\"order\",\"standard\":\"");
    out.append(standard.redemption_id.label().as_str());
    out.append("\",\"vip\":\"");
    out.append(vip.redemption_id.label().as_str());
    out.append("\",\"institutional\":\"");
    out.append(institutional.redemption_id.label().as_str());
    out.append("\",\"queueOrder\":");
    out.append(id_array_json(queue_order.as_slice()).as_str());
    out.append(",\"processed\":");
    out.append(id_array_json(processed_ids.as_slice()).as_str());
    out.append(",\"processedLabels\":");
    out.append(string_array_json(processed_labels.as_slice()).as_str());
    out.append(",\"processedLanes\":");
    out.append(string_array_json(processed_lanes.as_slice()).as_str());
    out.append("}");
    Ok(out)
}

/// The output of the withdrawals scenario.
pub open spec fn withdrawals_json(
    priority: RedemptionId,
    standard: RedemptionId,
    processed: Seq<RedemptionId>,
    early: nat,
    vip: nat,
    standard_paid: nat,
    report: Seq<char>,
) -> Seq<char> {
    "{\"scenario\":\"withdrawals\",\"priority\":\""@ + redemption_text(priority) + "\",\"standard\":\""@
        + redemption_text(standard) + "\",\"processed\":"@ + ids_json(processed) + ",\"early\":"@ + decimal(early)
        + ",\"vipWithdrawal\":"@ + decimal(vip) + ",\"standardWithdrawal\":"@ + decimal(standard_paid)
        + ",\"report\":"@ + report + "}"@
}

/// The output of the withdrawals scenario: its JSON, ending in the report
/// of day 3, when the vault holds a reserve of 7500 against 7500 shares.
pub open spec fn withdrawals_output(s: Seq<char>) -> bool {
    exists|e: CrownEngine, rep: ProtocolReport| #![trigger rep.describes(e)]
        rep.describes(e) && e.spec_day()@ == 3 && e.spec_vaults()[1].spec_reserve() == 7500
            && e.spec_vaults()[1].spec_total_shares() == 7500 && s == withdrawals_json(
            RedemptionId::spec_new(1),
            RedemptionId::spec_new(2),
            seq![RedemptionId::spec_new(1), RedemptionId::spec_new(2)],
            0,
            300,
            200,
            rep.json(),
        )
}

/// Bob redeems 300 shares in the priority lane and alice 200 in the
/// standard lane; both are scheduled; nothing is payable on day 0, bob's 300
/// on day 1 and alice's 200 (her part of the reserve not owed to bob) on
/// day 3, followed by the report of that day, when the vault holds a reserve
/// of 7500 against 7500 shares.
#[verifier::spinoff_prover]
pub fn scenario_withdrawals() -> (r: CrownResult<String>)
    ensures
        r matches Ok(s) && withdrawals_output(s@),
{
    let mut engine = CrownEngine::fixture();
    proof {
        engine.lemma_fixture_lookup();
        lemma_error_codes();
    }
    let vault = engine.first_vault_id()?;
    let bob = engine.account_id("bob")?;
    let alice = engine.account_id("alice")?;
    let ghost e0 = engine;
    proof {
        VaultId::lemma_view(vault, VaultId::spec_new(1), 1);
        AccountId::lemma_view(alice, AccountId::spec_new(1), 1);
        AccountId::lemma_view(bob, AccountId::spec_new(2), 2);
    }
    let vip_shares = Amount::from_u64(300);
    proof {
        assert(e0.request_refusal(bob, vault, vip_shares, RedemptionKind::Priority).len() == 0);
        assert(e0.request_late_refusal(bob, vault, vip_shares, RedemptionKind::Priority).len() == 0);
    }
    let requested = engine.request_redemption(bob, vault, vip_shares, RedemptionKind::Priority);
    let ghost e1 = engine;
    let ghost c1 = e1.spec_claims().spec_claims()[1];
    proof {
        assert forall|k: u64| #[trigger] e1.spec_accounts().spec_accounts().contains_key(k) implies e1.spec_accounts().spec_accounts()[k].spec_portfolio().assets_view()
            == Map::<u64, Amount>::empty() by {
            assert(e0.spec_accounts().spec_accounts().contains_key(k));
        }
        e1.lemma_no_assets();
        RedemptionId::lemma_view(RedemptionId::spec_new(1), RedemptionId::spec_new(1), 1);
        assert(e1.spec_claims().spec_claims() =~= Map::<u64, PriorityClaim>::empty().insert(1, c1));
        e1.lemma_dense_claims(1, 1);
        assert(300nat * 8000nat / 8000nat == 300nat);
        assert(c1.spec_amount()@ == 300);
        assert forall|k: u64| #[trigger] owed_claims(e1.spec_claims().claim_entries(), k) <= e1.reserve_of(k) by {
            lemma_owed_list(e1.spec_claims().claim_entries(), k);
        }
        e1.lemma_checks_pass();
    }
    let priority = requested?;
    let standard_shares = Amount::from_u64(200);
    proof {
        let ws = e0.spec_vaults()[1].spec_config().window_entries();
        assert(crate::engine::window_from(ws, 1, WindowKind::Standard) == Some(ws[1].1));
        assert(crate::engine::window_from(ws, 0, WindowKind::Standard) == Some(ws[1].1));
        assert(e1.request_refusal(alice, vault, standard_shares, RedemptionKind::Standard).len() == 0);
        assert(e1.request_late_refusal(alice, vault, standard_shares, RedemptionKind::Standard).len() == 0);
    }
    let requested = engine.request_redemption(alice, vault, standard_shares, RedemptionKind::Standard);
    let ghost e2 = engine;
    proof {
        assert forall|k: u64| #[trigger] e2.spec_accounts().spec_accounts().contains_key(k) implies e2.spec_accounts().spec_accounts()[k].spec_portfolio().assets_view()
            == Map::<u64, Amount>::empty() by {
            assert(e1.spec_accounts().spec_accounts().contains_key(k));
        }
        e2.lemma_no_assets();
        assert(e2.spec_claims() == e1.spec_claims());
        assert forall|k: u64| #[trigger] owed_claims(e2.spec_claims().claim_entries(), k) <= e2.reserve_of(k) by {
            assert(owed_claims(e1.spec_claims().claim_entries(), k) <= e1.reserve_of(k));
        }
        e2.lemma_checks_pass();
    }
    let standard = requested?;
    proof {
        let q = e2.spec_queue().spec_items(vault);
        assert(q.len() == 2);
        assert(q[0].spec_score() == 1060);
        assert(q[1].spec_score() == 110);
        assert(crate::queue::is_next(q, 0));
        lemma_next_unique(q, 0);
        let q1 = q.remove(0);
        assert(q1 =~= seq![q[1]]);
        assert(crate::queue::is_next(q1, 0));
        lemma_next_unique(q1, 0);
        assert(service_order(q1.remove(0), 0) =~= Seq::<QueueItem>::empty());
        assert(service_order(q1, 1) =~= seq![q[1]]);
        assert(service_order(q, 2) =~= seq![q[0], q[1]]);
        RedemptionId::lemma_view(RedemptionId::spec_new(1), RedemptionId::spec_new(1), 1);
        RedemptionId::lemma_view(RedemptionId::spec_new(2), RedemptionId::spec_new(2), 2);
        assert(q[0].spec_redemption_id() == RedemptionId::spec_new(1));
        assert(q[1].spec_redemption_id() == RedemptionId::spec_new(2));
        let m = e2.spec_vaults()[1].spec_tickets();
        let c = e2.spec_claims().spec_claims();
        assert(m.contains_key(1) && m[1].spec_status() is Queued);
        assert(m.contains_key(2) && m[2].spec_status() is Queued);
        assert(!c.contains_key(2));
    }
    let processing = engine.process_vault_queue(vault, 2);
    let ghost e3 = engine;
    let ghost t2 = e2.spec_vaults()[1].spec_tickets()[2];
    let ghost c2 = crate::engine::standard_claim(t2);
    proof {
        let q = e2.spec_queue().spec_items(vault);
        let m = e2.spec_vaults()[1].spec_tickets();
        let s2 = service_order(q, 2);
        m[1].lemma_with_status(RedemptionStatus::PendingUnlock);
        m[2].lemma_with_status(RedemptionStatus::PendingUnlock);
        assert(s2.drop_last() =~= seq![q[0]]);
        assert(s2.drop_last().drop_last() =~= Seq::<QueueItem>::empty());
        let c = e2.spec_claims().spec_claims();
        assert(crate::engine::standard_claims(c, m, s2.drop_last().drop_last()) == c);
        assert(crate::engine::standard_claims(c, m, s2.drop_last()) == c);
        assert(e3.spec_claims().spec_claims() == c.insert(2, c2));
        assert(e1.spec_claims().spec_claims() == Map::<u64, crate::priority::PriorityClaim>::empty().insert(1, c1));
        assert(e3.spec_claims().spec_claims().dom() =~= set![1u64, 2u64]);
        let ws = e0.spec_vaults()[1].spec_config().window_entries();
        assert(crate::engine::window_from(ws, 0, WindowKind::Priority) == Some(ws[0].1));
        assert(crate::engine::window_from(ws, 1, WindowKind::Standard) == Some(ws[1].1));
        assert(crate::engine::window_from(ws, 0, WindowKind::Standard) == Some(ws[1].1));
        EpochDay::lemma_view(EpochDay::spec_new(1), EpochDay::spec_new(1), 1);
        EpochDay::lemma_view(EpochDay::spec_new(3), EpochDay::spec_new(3), 3);
        assert(c1.spec_account() == bob && c1.spec_vault() == vault);
        assert(c1.spec_unlock_day()@ == 1);
        assert(c1.spec_state() is Pending);
        PriorityClaim::lemma_from_draft(crate::priority::PriorityClaimDraft {
            redemption_id: t2.spec_id(),
            account: t2.spec_account(),
            vault: t2.spec_vault(),
            asset: t2.spec_asset(),
            amount: t2.spec_quoted(),
            unlock_day: t2.spec_unlock_day(),
            window: t2.spec_window(),
            lane: crate::queue::Lane::Standard,
        });
        assert(c2.spec_account() == alice && c2.spec_vault() == vault && c2.spec_unlock_day()@ == 3);
        assert(c2.spec_state() is Pending);
        e3.lemma_wf_parts();
        e3.spec_claims().lemma_wf();
        let ce = e3.spec_claims().claim_entries();
        assert forall|i: int| 0 <= i < ce.len() implies !((#[trigger] ce[i]).1.spec_account() == bob && ce[i].1.spec_vault()
            == vault && ce[i].1.spec_is_mature(e3.spec_day())) by {
            assert(e3.spec_claims().spec_claims().contains_key(ce[i].0));
        }
        crate::priority::lemma_mature_none(ce, bob, vault, e3.spec_day());
        assert(e1.spec_vaults()[1].spec_liquid() == 7700);
        assert(200nat * 7700nat / 7700nat == 200nat);
        assert(c2.spec_amount()@ == 200);
        assert(e3.spec_claims().spec_claims() =~= Map::<u64, PriorityClaim>::empty().insert(1, c1).insert(2, c2));
        e3.lemma_dense_claims(1, 2);
        assert forall|k: u64| #[trigger] e3.spec_accounts().spec_accounts().contains_key(k) implies e3.spec_accounts().spec_accounts()[k].spec_portfolio().assets_view()
            == Map::<u64, Amount>::empty() by {
            assert(e2.spec_accounts().spec_accounts().contains_key(k));
        }
        e3.lemma_no_assets();
        assert forall|k: u64| #[trigger] owed_claims(e3.spec_claims().claim_entries(), k) <= e3.reserve_of(k) by {
            lemma_owed_list(e3.spec_claims().claim_entries(), k);
        }
        e3.lemma_checks_pass();
    }
    let processed = processing?;
    proof {
        assert(processed@.len() == 2);
        assert(processed@[0].spec_id() == RedemptionId::spec_new(1));
        assert(processed@[1].spec_id() == RedemptionId::spec_new(2));
    }
    let sweep = engine.withdraw_available(bob, vault);
    let ghost e4 = engine;
    proof {
        let ce = e3.spec_claims().claim_entries();
        assert(e4.spec_claims().claim_entries() =~= ce);
        assert(e4.spec_accounts() == e3.spec_accounts());
        e4.lemma_no_assets();
        assert forall|k: u64| #[trigger] owed_claims(e4.spec_claims().claim_entries(), k) <= e4.reserve_of(k) by {
            assert(owed_claims(ce, k) <= e3.reserve_of(k));
        }
        e4.lemma_checks_pass();
    }
    let early = sweep?;
    engine.advance_days(1)?;
    let ghost e5 = engine;
    proof {
        let ce = e3.spec_claims().claim_entries();
        assert(e5.spec_claims().claim_entries() =~= ce);
        e5.spec_claims().lemma_view_entries();
        e3.spec_claims().lemma_view_entries();
        assert(e5.spec_claims().spec_claims() == e3.spec_claims().spec_claims());
        e5.lemma_wf_parts();
        e5.spec_claims().lemma_wf();
        let p = e5.spec_claims().lemma_key(1);
        assert forall|i: int| 0 <= i < ce.len() && i != p implies !((#[trigger] ce[i]).1.spec_account() == bob
            && ce[i].1.spec_vault() == vault && ce[i].1.spec_is_mature(e5.spec_day())) by {
            assert(e5.spec_claims().spec_claims().contains_key(ce[i].0));
            crate::priority::PriorityBook::lemma_entries(&e5.spec_claims());
            if ce[i].0 == 1 {
                assert(i == p);
            }
        }
        crate::priority::lemma_mature_one(ce, p, bob, vault, e5.spec_day());
        e5.lemma_dense_claims(1, 2);
        assert(p == 0);
        let ms = seq![c1];
        assert(ms.take(1) =~= ms);
        assert(ms.drop_last() =~= Seq::<PriorityClaim>::empty());
        assert(crate::engine::claims_amount(ms) == 300);
        let q = e2.spec_queue().spec_items(vault);
        let m2 = e2.spec_vaults()[1].spec_tickets();
        crate::engine::lemma_scheduled(m2, service_order(q, 2), 1);
        crate::engine::lemma_scheduled(m2, service_order(q, 2), 2);
        assert(service_order(q, 2)[0].spec_redemption_id()@ == 1);
        assert(service_order(q, 2)[1].spec_redemption_id()@ == 2);
        let m5 = e5.spec_vaults()[1].spec_tickets();
        assert(m5.contains_key(1) && m5[1] == m2[1].with_status(RedemptionStatus::PendingUnlock));
        assert(m5.contains_key(2) && m5[2] == m2[2].with_status(RedemptionStatus::PendingUnlock));
        assert(m5[1].spec_shares()@ == 300);
        assert(c1.spec_redemption_id()@ == 1);
        assert(crate::engine::completed_for(m5, ms.drop_last(), bob, vault, EpochDay::spec_new(0)) == 0);
        assert(crate::engine::completed_for(m5, ms, bob, vault, EpochDay::spec_new(0)) <= 300);
        assert(e5.sweep_code(ms, 0, bob, vault).len() == 0);
    }
    let sweep = engine.withdraw_available(bob, vault);
    let ghost e6 = engine;
    proof {
        c1.lemma_with_state(crate::priority::ClaimState::Consumed);
        let ce5 = e5.spec_claims().claim_entries();
        let ce = e6.spec_claims().claim_entries();
        assert(ce[0] == (1u64, c1.with_state(crate::priority::ClaimState::Consumed)));
        assert(ce[1] == ce5[1]);
        assert forall|k: u64| #[trigger] owed_claims(ce, k) <= e6.reserve_of(k) by {
            lemma_owed_list(ce, k);
        }
        assert(e6.spec_accounts().spec_accounts().dom() =~= set![1u64, 2u64, 3u64, 4u64]);
        e6.lemma_dense_accounts(4);
        assert forall|k: u64| #[trigger] held_assets(e6.spec_accounts().spec_entries(), k) <= crate::amount::amount_max() by {
            lemma_held_four(e6.spec_accounts().spec_entries(), k);
        }
        e6.lemma_checks_pass();
    }
    let vip_withdrawal = sweep?;
    engine.advance_days(2)?;
    let ghost e7 = engine;
    proof {
        let ce5 = e5.spec_claims().claim_entries();
        let ce = e7.spec_claims().claim_entries();
        assert(ce.len() == ce5.len());
        e7.lemma_wf_parts();
        e7.spec_claims().lemma_wf();
        e7.spec_claims().lemma_entries();
        e5.spec_claims().lemma_entries();
        e5.spec_claims().lemma_wf();
        let p5 = e5.spec_claims().lemma_key(2);
        assert(ce5[p5].1 == c2);
        assert(ce[p5] == ce5[p5]);
        assert forall|i: int| 0 <= i < ce.len() && i != p5 implies !((#[trigger] ce[i]).1.spec_account() == alice
            && ce[i].1.spec_vault() == vault && ce[i].1.spec_is_mature(e7.spec_day())) by {
            assert(e5.spec_claims().spec_claims().contains_key(ce5[i].0));
            assert(ce5[i].0 != 2);
            assert(ce5[i].0 == 1);
            ce5[i].1.lemma_with_state(crate::priority::ClaimState::Consumed);
        }
        crate::priority::lemma_mature_one(ce, p5, alice, vault, e7.spec_day());
        e5.lemma_dense_claims(1, 2);
        assert(p5 == 1);
        let ms = seq![c2];
        assert(ms.take(1) =~= ms);
        assert(ms.drop_last() =~= Seq::<PriorityClaim>::empty());
        let m5 = e5.spec_vaults()[1].spec_tickets();
        let m7 = e7.spec_vaults()[1].spec_tickets();
        assert(seq![c1].drop_last() =~= Seq::<PriorityClaim>::empty());
        assert(m7 == m5.insert(1, m5[1].with_status(RedemptionStatus::Withdrawn)));
        assert(m7.contains_key(2) && m7[2] == m5[2]);
        assert(c2.spec_redemption_id()@ == 2);
        assert(crate::engine::completed_for(m7, ms.drop_last(), alice, vault, EpochDay::spec_new(0)) == 0);
        assert(crate::engine::claims_amount(ms) == 200);
        assert(e7.spec_vaults()[1].spec_reserve() == 7700);
        let a7 = e7.spec_accounts().spec_accounts()[1];
        assert(a7.spec_portfolio().assets_view() == Map::<u64, Amount>::empty());
        let t = m7[2];
        assert(t.spec_account() == alice && t.spec_vault() == vault && t.spec_requested_day()@ == 0);
        assert(seq![c1].last() == c1);
        assert(m5[1].spec_account() == bob);
        assert(bob@ != alice@);
        assert(crate::engine::completed_for(m5, Seq::<PriorityClaim>::empty(), alice, vault, t.spec_requested_day()) == 0);
        assert(crate::engine::completed_for(m5, seq![c1], alice, vault, t.spec_requested_day()) == 0);
        assert(ms.last() == c2);
        assert(t.spec_shares()@ == 200);
        assert(crate::engine::ends_withdrawn(t));
        assert(e7.spec_limits().spec_bucket(alice, vault, t.spec_requested_day()).spec_completed() == 0);
        assert(crate::engine::completed_for(m7, ms.drop_last(), alice, vault, t.spec_requested_day()) == 0);
        assert(crate::engine::completed_for(m7, ms, alice, vault, t.spec_requested_day()) == 200);
        assert(e7.sweep_code(ms, 0, alice, vault).len() == 0);
    }
    let sweep = engine.withdraw_available(alice, vault);
    let ghost e8 = engine;
    proof {
        c2.lemma_with_state(crate::priority::ClaimState::Consumed);
        let ce7 = e7.spec_claims().claim_entries();
        let ce = e8.spec_claims().claim_entries();
        assert(ce[1] == (2u64, c2.with_state(crate::priority::ClaimState::Consumed)));
        assert(ce[0] == ce7[0]);
        assert forall|k: u64| #[trigger] owed_claims(ce, k) <= e8.reserve_of(k) by {
            lemma_owed_list(ce, k);
        }
        assert(e8.spec_accounts().spec_accounts().dom() =~= set![1u64, 2u64, 3u64, 4u64]);
        e8.lemma_dense_accounts(4);
        assert forall|k: u64| #[trigger] held_assets(e8.spec_accounts().spec_entries(), k) <= crate::amount::amount_max() by {
            lemma_held_four(e8.spec_accounts().spec_entries(), k);
        }
        e8.lemma_checks_pass();
    }
    let standard_withdrawal = sweep?;
    proof {
        let v0 = e0.spec_vaults()[1];
        let v1 = e1.spec_vaults()[1];
        assert(early.amount@ == 0);
        assert(v0.spec_reserve() == 8000 && v0.spec_total_shares() == 8000);
        assert(v1.spec_reserve() == 8000 && v1.spec_total_shares() == 7700);
        assert(300nat * 8000nat == 2400000nat);
        assert(2400000nat / 8000nat == 300nat);
        assert(v0.spec_liquid() == 8000 && v1.spec_liquid() == 7700);
        assert(200nat * 7700nat / 7700nat == 200nat);
        assert(crate::engine::quote_of(v0, vip_shares) == 300);
        assert(crate::engine::quote_of(v1, standard_shares) == 200);
        assert(c1.spec_amount()@ == 300);
        assert(c2.spec_amount()@ == 200);
        let ms1 = seq![c1];
        assert(ms1.drop_last() =~= Seq::<PriorityClaim>::empty());
        assert(crate::engine::claims_amount(ms1) == 300);
        let ms2 = seq![c2];
        assert(ms2.drop_last() =~= Seq::<PriorityClaim>::empty());
        assert(crate::engine::claims_amount(ms2) == 200);
        assert(vip_withdrawal.amount@ == 300);
        assert(standard_withdrawal.amount@ == 200);
        assert(e8.spec_day()@ == 3);
        assert(e8.spec_vaults()[1].spec_reserve() == 7500);
        assert(e8.spec_vaults()[1].spec_total_shares() == 7500);
    }
    proof {
        let q = e2.spec_queue().spec_items(vault);
        let q1 = q.remove(0);
        assert(q1.remove(0) =~= Seq::<QueueItem>::empty());
        assert(crate::queue::drop_served(q1.remove(0), 0) == q1.remove(0));
        assert(crate::queue::drop_served(q1, 1) == q1.remove(0));
        assert(crate::queue::drop_served(q, 2) =~= Seq::<QueueItem>::empty());
        assert(e8.spec_queue().spec_items(vault).len() == 0);
        let ce = e8.spec_claims().claim_entries();
        assert(ce.len() == 2);
        assert(ce.drop_last().drop_last() =~= Seq::<(u64, PriorityClaim)>::empty());
        assert(open_claim_seq(ce.drop_last()) == open_claim_seq(ce.drop_last().drop_last()));
        assert(open_claim_seq(ce).len() == 0);
        e8.lemma_wf_parts();
        assert forall|i: int| 0 <= i < e8.vault_entries().len() implies {
            let id = (#[trigger] e8.vault_entries()[i]).1.spec_id();
            &&& queued_amount(e8.spec_queue().spec_items(id)) <= crate::amount::amount_max()
            &&& vault_claims(open_claim_seq(e8.spec_claims().claim_entries()), id) <= crate::amount::amount_max()
        } by {
            let key = e8.vault_entries()[i].0;
            assert(e8.spec_vaults().contains_key(key));
            assert(e8.spec_vaults().dom() =~= set![1u64]);
            let id = e8.vault_entries()[i].1.spec_id();
            VaultId::lemma_view(id, vault, 1);
            assert(id == vault);
        }
        assert(reportable(e8));
    }
    let report = ProtocolReport::capture(&engine)?;
    let ids = ticket_ids(&processed);
    proof {
        assert(ids@ =~= seq![RedemptionId::spec_new(1), RedemptionId::spec_new(2)]);
        assert(priority.redemption_id == RedemptionId::spec_new(1));
        assert(standard.redemption_id == RedemptionId::spec_new(2));
    }
    let json = report.to_json();
    let mut out = String::from_str("{\"scenario\":\"withdrawals\",\"priority\":\"");
    out.append(priority.redemption_id.label().as_str());
    out.append("\",\"standard\":\"");
    out.append(standard.redemption_id.label().as_str());
    out.append("\",\"processed\":");
    out.append(id_array_json(ids.as_slice()).as_str());
    out.append(",\"early\":");
    out.append(decimal_string(early.amount.raw()).as_str());
    out.append(",\"vipWithdrawal\":");
    out.append(decimal_string(vip_withdrawal.amount.raw()).as_str());
    out.append(",\"standardWithdrawal\":");
    out.append(decimal_string(standard_withdrawal.amount.raw()).as_str());
    out.append(",\"report\":");
    out.append(json.as_str());
    out.append("}");
    proof {
        assert(report.describes(e8) && e8.spec_day()@ == 3 && e8.spec_vaults()[1].spec_reserve() == 7500
            && e8.spec_vaults()[1].spec_total_shares() == 7500);
    }
    Ok(out)
}

/// The error text for a scenario name that is not known.
pub open spec fn unknown_scenario(name: Seq<char>) -> Seq<char> {
    "unknown scenario '"@ + name + "'"@
}

/// The usage text of the command line.
pub open spec fn usage_text() -> Seq<char> {
    "usage: crown-dtl scenario <order|limits|cancel|withdrawals|report>"@
}

/// Runs the scenario a command line names: `scenario` followed by `order`,
/// `limits`, `cancel`, `withdrawals` or `report` gives that scenario's
/// output; `scenario` followed by another name fails with `Cli` naming it;
/// anything else fails with `Cli` and the usage text.
pub fn run_scenario(first: Option<&str>, second: Option<&str>) -> (r: CrownResult<String>)
    ensures
        ({
            let named = first matches Some(f) && f@ == "scenario"@ && second is Some;
            let n = second->0@;
            &&& !named ==> (r matches Err(e) && e is Cli && e.spec_detail() == usage_text())
            &&& named && n == "order"@ ==> (r matches Ok(s) && order_output(s@))
            &&& named && n == "limits"@ ==> (r matches Ok(s) && limits_output(s@))
            &&& named && n == "cancel"@ ==> (r matches Ok(s) && cancel_output(s@))
            &&& named && n == "withdrawals"@ ==> (r matches Ok(s) && withdrawals_output(s@))
            &&& named && n == "report"@ ==> (r matches Ok(s) && report_output(s@))
            &&& named && n != "order"@ && n != "limits"@ && n != "cancel"@ && n != "withdrawals"@ && n != "report"@
                ==> (r matches Err(e) && e is Cli && e.spec_detail() == unknown_scenario(n))
        }),
{
    proof {
        reveal_strlit("order");
        reveal_strlit("limits");
        reveal_strlit("cancel");
        reveal_strlit("withdrawals");
        reveal_strlit("report");
        let names = seq!["order"@, "limits"@, "cancel"@, "withdrawals"@, "report"@];
        assert(names[0].len() == 5 && names[3].len() == 11);
        assert(names[1][0] != names[2][0] && names[1][0] != names[4][0] && names[2][0] != names[4][0]);
        assert forall|a: int, b: int| 0 <= a < b < 5 implies names[a] != names[b] by {
            if names[a].len() == names[b].len() {
                assert(names[a][0] != names[b][0]);
            }
        }
    }
    if let (Some(f), Some(n)) = (first, second) {
        if str_eq(f, "scenario") {
            if str_eq(n, "order") {
                return scenario_order();
            } else if str_eq(n, "limits") {
                return scenario_limits();
            } else if str_eq(n, "cancel") {
                return scenario_cancel();
            } else if str_eq(n, "withdrawals") {
                return scenario_withdrawals();
            } else if str_eq(n, "report") {
                return scenario_report();
            } else {
                let text = String::from_str("unknown scenario '").concat(n).concat("'");
                proof {
                    reveal_strlit("unknown scenario '");
                    reveal_strlit("'");
                }
                return Err(CrownError::Cli(text));
            }
        }
    }
    let text = String::from_str("usage: crown-dtl scenario <order|limits|cancel|withdrawals|report>");
    Err(CrownError::Cli(text))
}

} // verus!
