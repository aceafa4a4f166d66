use vstd::prelude::*;
use crate::text::decimal;
use crate::amount::{amount_max, Amount};
use crate::clock::EpochDay;
use crate::error::{CrownError, CrownResult};
use crate::idmap::{IdMap, lemma_sum_insert, lemma_sum_update, sum_by};
use crate::ids::{AccountId, AssetId, RedemptionId, VaultId, WindowId};
use crate::queue::Lane;

verus! {

broadcast use crate::amount::group_amount;

#[derive(Debug, Clone, Copy, PartialEq, Eq, Structural)]
pub enum ClaimState {
    Pending,
    Consumed,
    Released,
}

impl ClaimState {
    pub fn is_open(self) -> (r: bool)
        ensures
            r == (self is Pending),
    {
        match self {
            ClaimState::Pending => true,
            _ => false,
        }
    }
}

/// The fields of a new claim on a vault's reserve.
#[derive(Debug, Clone, PartialEq, Eq)]
pub struct PriorityClaimDraft {
    pub redemption_id: RedemptionId,
    pub account: AccountId,
    pub vault: VaultId,
    pub asset: AssetId,
    pub amount: Amount,
    pub unlock_day: EpochDay,
    pub window: WindowId,
    pub lane: Lane,
}

/// A scheduled payout of a redemption, due from its unlock day.
#[derive(Debug, Clone, Copy, PartialEq, Eq, Structural)]
pub struct PriorityClaim {
    redemption_id: RedemptionId,
    account: AccountId,
    vault: VaultId,
    asset: AssetId,
    amount: Amount,
    unlock_day: EpochDay,
    window: WindowId,
    lane: Lane,
    state: ClaimState,
}

/// The text of a refused change to the claim of a redemption that is no
/// longer pending.
pub open spec fn not_pending_detail(redemption_id: RedemptionId) -> Seq<char> {
    "claim "@ + "rdm-"@ + decimal(redemption_id@ as nat) + " is not pending"@
}

impl PriorityClaim {
    pub closed spec fn spec_redemption_id(self) -> RedemptionId {
        self.redemption_id
    }

    pub closed spec fn spec_account(self) -> AccountId {
        self.account
    }

    pub closed spec fn spec_vault(self) -> VaultId {
        self.vault
    }

    pub closed spec fn spec_asset(self) -> AssetId {
        self.asset
    }

    pub closed spec fn spec_amount(self) -> Amount {
        self.amount
    }

    pub closed spec fn spec_unlock_day(self) -> EpochDay {
        self.unlock_day
    }

    pub closed spec fn spec_window(self) -> WindowId {
        self.window
    }

    pub closed spec fn spec_lane(self) -> Lane {
        self.lane
    }

    pub closed spec fn spec_state(self) -> ClaimState {
        self.state
    }

    /// The same claim in another state.
    pub closed spec fn with_state(self, state: ClaimState) -> Self {
        PriorityClaim { state, ..self }
    }

    pub proof fn lemma_with_state(self, state: ClaimState)
        ensures
            self.with_state(state).spec_state() == state,
            self.with_state(state).spec_redemption_id() == self.spec_redemption_id(),
            self.with_state(state).spec_account() == self.spec_account(),
            self.with_state(state).spec_vault() == self.spec_vault(),
            self.with_state(state).spec_asset() == self.spec_asset(),
            self.with_state(state).spec_amount() == self.spec_amount(),
            self.with_state(state).spec_unlock_day() == self.spec_unlock_day(),
            self.with_state(state).spec_window() == self.spec_window(),
            self.with_state(state).spec_lane() == self.spec_lane(),
    {
    }

    /// Open and due on `day`.
    pub open spec fn spec_is_mature(self, day: EpochDay) -> bool {
        self.spec_state() is Pending && day@ >= self.spec_unlock_day()@
    }

    /// The pending claim made from `draft`.
    pub open spec fn made_from(self, draft: PriorityClaimDraft) -> bool {
        &&& self.spec_redemption_id() == draft.redemption_id
        &&& self.spec_account() == draft.account
        &&& self.spec_vault() == draft.vault
        &&& self.spec_asset() == draft.asset
        &&& self.spec_amount() == draft.amount
        &&& self.spec_unlock_day() == draft.unlock_day
        &&& self.spec_window() == draft.window
        &&& self.spec_lane() == draft.lane
        &&& self.spec_state() == ClaimState::Pending
    }

    /// The pending claim built from `draft`.
    pub closed spec fn spec_from_draft(draft: PriorityClaimDraft) -> Self {
        PriorityClaim {
            redemption_id: draft.redemption_id,
            account: draft.account,
            vault: draft.vault,
            asset: draft.asset,
            amount: draft.amount,
            unlock_day: draft.unlock_day,
            window: draft.window,
            lane: draft.lane,
            state: ClaimState::Pending,
        }
    }

    pub proof fn lemma_from_draft(draft: PriorityClaimDraft)
        ensures
            #[trigger] Self::spec_from_draft(draft).made_from(draft),
    {
    }

    pub fn from_draft(draft: PriorityClaimDraft) -> (r: Self)
        ensures
            r.made_from(draft),
            r == Self::spec_from_draft(draft),
    {
        PriorityClaim {
            redemption_id: draft.redemption_id,
            account: draft.account,
            vault: draft.vault,
            asset: draft.asset,
            amount: draft.amount,
            unlock_day: draft.unlock_day,
            window: draft.window,
            lane: draft.lane,
            state: ClaimState::Pending,
        }
    }

    pub fn redemption_id(&self) -> (r: RedemptionId)
        ensures
            r == self.spec_redemption_id(),
    {
        self.redemption_id
    }

    pub fn account(&self) -> (r: AccountId)
        ensures
            r == self.spec_account(),
    {
        self.account
    }

    pub fn vault(&self) -> (r: VaultId)
        ensures
            r == self.spec_vault(),
    {
        self.vault
    }

    pub fn asset(&self) -> (r: AssetId)
        ensures
            r == self.spec_asset(),
    {
        self.asset
    }

    pub fn amount(&self) -> (r: Amount)
        ensures
            r == self.spec_amount(),
    {
        self.amount
    }

    pub fn unlock_day(&self) -> (r: EpochDay)
        ensures
            r == self.spec_unlock_day(),
    {
        self.unlock_day
    }

    pub fn window(&self) -> (r: WindowId)
        ensures
            r == self.spec_window(),
    {
        self.window
    }

    pub fn lane(&self) -> (r: Lane)
        ensures
            r == self.spec_lane(),
    {
        self.lane
    }

    pub fn state(&self) -> (r: ClaimState)
        ensures
            r == self.spec_state(),
    {
        self.state
    }

    pub fn is_mature(&self, day: EpochDay) -> (r: bool)
        ensures
            r == self.spec_is_mature(day),
    {
        self.state.is_open() && day.raw() >= self.unlock_day.raw()
    }

    fn not_pending(&self) -> (r: CrownError)
        ensures
            r is InvalidStatus,
            r.spec_detail() == not_pending_detail(self.spec_redemption_id()),
    {
        let msg = String::from_str("claim ").concat(self.redemption_id.label().as_str()).concat(
            " is not pending",
        );
        CrownError::InvalidStatus(msg)
    }

    /// A pending claim becomes consumed; otherwise `InvalidStatus`.
    pub fn mark_consumed(&mut self) -> (r: CrownResult<()>)
        ensures
            old(self).spec_state() is Pending ==> r is Ok && *final(self) == old(self).with_state(
                ClaimState::Consumed,
            ),
            !(old(self).spec_state() is Pending) ==> (r matches Err(e) && e is InvalidStatus
                && e.spec_detail() == not_pending_detail(old(self).spec_redemption_id()) && *final(self) == *old(self)),
    {
        if !self.state.is_open() {
            return Err(self.not_pending());
        }
        self.state = ClaimState::Consumed;
        Ok(())
    }

    /// A pending claim becomes released; otherwise `InvalidStatus`.
    pub fn mark_released(&mut self) -> (r: CrownResult<()>)
        ensures
            old(self).spec_state() is Pending ==> r is Ok && *final(self) == old(self).with_state(
                ClaimState::Released,
            ),
            !(old(self).spec_state() is Pending) ==> (r matches Err(e) && e is InvalidStatus
                && e.spec_detail() == not_pending_detail(old(self).spec_redemption_id()) && *final(self) == *old(self)),
    {
        if !self.state.is_open() {
            return Err(self.not_pending());
        }
        self.state = ClaimState::Released;
        Ok(())
    }
}

/// The amount a claim still owes: its amount while pending, nothing after.
pub open spec fn open_amount(c: PriorityClaim) -> nat {
    if c.spec_state() is Pending { c.spec_amount()@ } else { 0 }
}

/// The claim counts toward an account's pending payouts in a vault.
pub open spec fn pending_for(c: PriorityClaim, account: AccountId, vault: VaultId) -> nat {
    if c.spec_account() == account && c.spec_vault() == vault { open_amount(c) } else { 0 }
}

/// The claim is owed by `vault`.
pub open spec fn open_in_vault(c: PriorityClaim, vault: VaultId) -> nat {
    if c.spec_vault() == vault { open_amount(c) } else { 0 }
}

/// Total of the open claims of the account in the vault.
pub open spec fn account_pending(s: Seq<(u64, PriorityClaim)>, account: AccountId, vault: VaultId) -> nat {
    sum_by(s, |c: PriorityClaim| pending_for(c, account, vault))
}

/// The claims of `s`, in order, that belong to the account and vault and are
/// due on `day`.
pub open spec fn mature_claims(s: Seq<(u64, PriorityClaim)>, account: AccountId, vault: VaultId, day: EpochDay) -> Seq<PriorityClaim>
    decreases s.len(),
{
    if s.len() == 0 {
        Seq::empty()
    } else {
        let c = s.last().1;
        let rest = mature_claims(s.drop_last(), account, vault, day);
        if c.spec_account() == account && c.spec_vault() == vault && c.spec_is_mature(day) {
            rest.push(c)
        } else {
            rest
        }
    }
}

/// No claim of `s` matures for the account in the vault on the day.
pub proof fn lemma_mature_none(s: Seq<(u64, PriorityClaim)>, account: AccountId, vault: VaultId, day: EpochDay)
    requires
        forall|i: int| 0 <= i < s.len() ==> !((#[trigger] s[i]).1.spec_account() == account && s[i].1.spec_vault() == vault
            && s[i].1.spec_is_mature(day)),
    ensures
        mature_claims(s, account, vault, day) == Seq::<PriorityClaim>::empty(),
    decreases s.len(),
{
    if s.len() > 0 {
        assert(s.last() == s[s.len() - 1]);
        assert forall|i: int| 0 <= i < s.drop_last().len() implies !((#[trigger] s.drop_last()[i]).1.spec_account() == account
            && s.drop_last()[i].1.spec_vault() == vault && s.drop_last()[i].1.spec_is_mature(day)) by {
            assert(s.drop_last()[i] == s[i]);
        }
        lemma_mature_none(s.drop_last(), account, vault, day);
    }
}

/// Exactly the claim at position `p` matures for the account in the vault
/// on the day.
pub proof fn lemma_mature_one(s: Seq<(u64, PriorityClaim)>, p: int, account: AccountId, vault: VaultId, day: EpochDay)
    requires
        0 <= p < s.len(),
        s[p].1.spec_account() == account && s[p].1.spec_vault() == vault && s[p].1.spec_is_mature(day),
        forall|i: int| 0 <= i < s.len() && i != p ==> !((#[trigger] s[i]).1.spec_account() == account && s[i].1.spec_vault()
            == vault && s[i].1.spec_is_mature(day)),
    ensures
        mature_claims(s, account, vault, day) == seq![s[p].1],
    decreases s.len(),
{
    assert forall|i: int| 0 <= i < s.drop_last().len() && i != p implies !((#[trigger] s.drop_last()[i]).1.spec_account()
        == account && s.drop_last()[i].1.spec_vault() == vault && s.drop_last()[i].1.spec_is_mature(day)) by {
        assert(s.drop_last()[i] == s[i]);
    }
    if p == s.len() - 1 {
        lemma_mature_none(s.drop_last(), account, vault, day);
        assert(Seq::<PriorityClaim>::empty().push(s[p].1) =~= seq![s[p].1]);
    } else {
        assert(s.drop_last()[p] == s[p]);
        lemma_mature_one(s.drop_last(), p, account, vault, day);
    }
}

/// The claims of `s` that are still open, in order.
pub open spec fn open_claim_seq(s: Seq<(u64, PriorityClaim)>) -> Seq<PriorityClaim>
    decreases s.len(),
{
    if s.len() == 0 {
        Seq::empty()
    } else {
        let rest = open_claim_seq(s.drop_last());
        if s.last().1.spec_state() is Pending { rest.push(s.last().1) } else { rest }
    }
}

/// Claims by redemption.
#[derive(Debug, Clone)]
pub struct PriorityBook {
    claims: IdMap<PriorityClaim>,
}

impl PriorityBook {
    pub closed spec fn spec_claims(&self) -> Map<u64, PriorityClaim> {
        self.claims.view()
    }

    /// The claims in increasing redemption order.
    pub closed spec fn claim_entries(&self) -> Seq<(u64, PriorityClaim)> {
        self.claims.entries()
    }

    pub closed spec fn wf(&self) -> bool {
        &&& self.claims.wf()
        &&& forall|i: int|
            0 <= i < self.claims.entries().len() ==> (#[trigger] self.claims.entries()[i]).1.spec_redemption_id()@
                == self.claims.entries()[i].0
    }

    /// Total still owed by the open claims on `vault`.
    pub open spec fn open_total(&self, vault: VaultId) -> nat {
        sum_by(self.claim_entries(), |c: PriorityClaim| open_in_vault(c, vault))
    }

    pub proof fn lemma_wf(&self)
        requires
            self.wf(),
        ensures
            forall|k: u64| #[trigger] self.spec_claims().contains_key(k) ==> self.spec_claims()[k].spec_redemption_id()@ == k,
            forall|i: int| 0 <= i < self.claim_entries().len() ==> self.spec_claims().contains_key((#[trigger] self.claim_entries()[i]).0)
                && self.spec_claims()[self.claim_entries()[i].0] == self.claim_entries()[i].1,
    {
        assert forall|k: u64| #[trigger] self.spec_claims().contains_key(k) implies self.spec_claims()[k].spec_redemption_id()@ == k by {
            let i = self.claims.lemma_key(k);
        }
        assert forall|i: int| 0 <= i < self.claim_entries().len() implies self.spec_claims().contains_key((#[trigger] self.claim_entries()[i]).0)
            && self.spec_claims()[self.claim_entries()[i].0] == self.claim_entries()[i].1 by {
            self.claims.lemma_entry(i);
        }
    }

    /// The claims are in strictly increasing redemption order, each filed
    /// under its redemption.
    /// The claims are what the entries describe.
    pub proof fn lemma_view_entries(&self)
        ensures
            self.spec_claims() == crate::idmap::entries_map(self.claim_entries()),
    {
    }

    /// A claim of the book has an entry.
    pub proof fn lemma_key(&self, k: u64) -> (i: int)
        requires
            self.wf(),
            self.spec_claims().contains_key(k),
        ensures
            0 <= i < self.claim_entries().len(),
            self.claim_entries()[i].0 == k,
            self.claim_entries()[i].1 == self.spec_claims()[k],
    {
        let i = self.claims.lemma_key(k);
        self.claims.lemma_entry(i);
        i
    }

    /// A claim of the book sits at some position of the entries.
    pub proof fn lemma_claim_at(&self, k: u64) -> (i: int)
        requires
            self.wf(),
            self.spec_claims().contains_key(k),
        ensures
            0 <= i < self.claim_entries().len(),
            self.claim_entries()[i].0 == k,
            self.claim_entries()[i].1 == self.spec_claims()[k],
    {
        self.claims.lemma_key(k)
    }

    pub proof fn lemma_entries(&self)
        requires
            self.wf(),
        ensures
            crate::idmap::sorted_keys(self.claim_entries()),
            forall|i: int| 0 <= i < self.claim_entries().len() ==> (#[trigger] self.claim_entries()[i]).1.spec_redemption_id()@
                == self.claim_entries()[i].0,
    {
    }

    pub fn new() -> (r: Self)
        ensures
            r.wf(),
            r.spec_claims() == Map::<u64, PriorityClaim>::empty(),
            r.claim_entries().len() == 0,
    {
        PriorityBook { claims: IdMap::new() }
    }

    /// Files a claim; fails with `Invariant` when its redemption already has
    /// one.
    pub fn insert(&mut self, claim: PriorityClaim) -> (r: CrownResult<()>)
        requires
            old(self).wf(),
        ensures
            final(self).wf(),
            old(self).spec_claims().contains_key(claim.spec_redemption_id()@) ==> (r matches Err(e)
                && e is Invariant && e.spec_detail() == "claim "@ + "rdm-"@ + decimal(claim.spec_redemption_id()@ as nat)
                + " already exists"@ && *final(self) == *old(self)),
            !old(self).spec_claims().contains_key(claim.spec_redemption_id()@) ==> (r is Ok
                && final(self).spec_claims() == old(self).spec_claims().insert(claim.spec_redemption_id()@, claim)
                && exists|p: int| 0 <= p <= old(self).claim_entries().len() && final(self).claim_entries()
                    == old(self).claim_entries().insert(p, (claim.spec_redemption_id()@, claim))),
    {
        if self.claims.contains_key(claim.redemption_id().raw()) {
            let msg = String::from_str("claim ").concat(claim.redemption_id().label().as_str()).concat(
                " already exists",
            );
            return Err(CrownError::Invariant(msg));
        }
        let ghost old_entries = self.claims.entries();
        self.claims.insert(claim.redemption_id().raw(), claim);
        proof {
            let p = choose|p: int| 0 <= p <= old_entries.len() && self.claims.entries() == old_entries.insert(p, (claim.spec_redemption_id()@, claim));
            let s = self.claims.entries();
            assert forall|a: int| 0 <= a < s.len() implies (#[trigger] s[a]).1.spec_redemption_id()@ == s[a].0 by {
                if a < p { assert(s[a] == old_entries[a]); } else if a > p { assert(s[a] == old_entries[a - 1]); }
            }
            assert(self.claim_entries() == old_entries.insert(p, (claim.spec_redemption_id()@, claim)));
            assert(old_entries == old(self).claim_entries());
            assert(exists|p: int| 0 <= p <= old(self).claim_entries().len() && self.claim_entries()
                    == old(self).claim_entries().insert(p, (claim.spec_redemption_id()@, claim)));
        }
        Ok(())
    }

    /// Fails with `MissingClaim` when the redemption has no claim.
    pub fn get(&self, redemption_id: RedemptionId) -> (r: CrownResult<&PriorityClaim>)
        requires
            self.wf(),
        ensures
            self.spec_claims().contains_key(redemption_id@) ==> (r matches Ok(c) && *c
                == self.spec_claims()[redemption_id@]),
            !self.spec_claims().contains_key(redemption_id@) ==> (r matches Err(e) && e is MissingClaim
                && e.spec_detail() == "rdm-"@ + decimal(redemption_id@ as nat)),
    {
        match self.claims.get(redemption_id.raw()) {
            Some(c) => Ok(c),
            None => Err(CrownError::MissingClaim(redemption_id.label())),
        }
    }

    /// Mutable access to a claim; a change that keeps its redemption keeps
    /// the book well formed.
    pub fn get_mut(&mut self, redemption_id: RedemptionId) -> (r: CrownResult<&mut PriorityClaim>)
        requires
            old(self).wf(),
        ensures
            old(self).spec_claims().contains_key(redemption_id@) ==> (r matches Ok(c) && *c == old(
                self,
            ).spec_claims()[redemption_id@] && (final(c).spec_redemption_id() == c.spec_redemption_id()
                ==> final(self).wf() && final(self).spec_claims() == old(self).spec_claims().insert(
                redemption_id@,
                *final(c),
            ))),
            !old(self).spec_claims().contains_key(redemption_id@) ==> (r matches Err(e)
                && e is MissingClaim && e.spec_detail() == "rdm-"@ + decimal(redemption_id@ as nat)
                && *final(self) == *old(self)),
    {
        if !self.claims.contains_key(redemption_id.raw()) {
            return Err(CrownError::MissingClaim(redemption_id.label()));
        }
        proof {
            let i = self.claims.lemma_key(redemption_id@);
            let s = self.claims.entries();
            assert forall|c: PriorityClaim| #![trigger s.update(i, (redemption_id@, c))] c.spec_redemption_id() == s[i].1.spec_redemption_id()
                implies forall|a: int| 0 <= a < s.update(i, (redemption_id@, c)).len() ==> (#[trigger] s.update(i, (redemption_id@, c))[a]).1.spec_redemption_id()@
                    == s.update(i, (redemption_id@, c))[a].0 by {}
        }
        match self.claims.get_mut(redemption_id.raw()) {
            Some(c) => Ok(c),
            None => Err(CrownError::MissingClaim(redemption_id.label())),
        }
    }

    /// Applies a state change to the claim at position `i`.
    fn mark_at(&mut self, i: usize, consume: bool) -> (r: CrownResult<()>)
        requires
            old(self).wf(),
            i < old(self).claim_entries().len(),
        ensures
            final(self).wf(),
            ({
                let k = old(self).claim_entries()[i as int].0;
                let c = old(self).claim_entries()[i as int].1;
                let to = if consume { ClaimState::Consumed } else { ClaimState::Released };
                &&& !(c.spec_state() is Pending) ==> (r matches Err(e) && e is InvalidStatus
                    && e.spec_detail() == not_pending_detail(c.spec_redemption_id())
                    && final(self).claim_entries() == old(self).claim_entries() && final(self).spec_claims()
                    == old(self).spec_claims())
                &&& c.spec_state() is Pending ==> (r is Ok && final(self).claim_entries() == old(self).claim_entries().update(
                    i as int,
                    (k, c.with_state(to)),
                ) && final(self).spec_claims() == old(self).spec_claims().insert(k, c.with_state(to)))
            }),
    {
        let ghost old_entries = self.claims.entries();
        let c = self.claims.value_at_mut(i);
        let r = if consume { c.mark_consumed() } else { c.mark_released() };
        proof {
            let s = self.claims.entries();
            if r is Err {
                assert(s =~= old_entries);
            } else {
                assert forall|a: int| 0 <= a < s.len() implies (#[trigger] s[a]).1.spec_redemption_id()@ == s[a].0 by {
                    if a != i { assert(s[a] == old_entries[a]); }
                }
            }
        }
        r
    }

    /// Releases a pending claim and returns its amount; fails with
    /// `MissingClaim` or `InvalidStatus`.
    pub fn release_claim(&mut self, redemption_id: RedemptionId) -> (r: CrownResult<Amount>)
        requires
            old(self).wf(),
        ensures
            final(self).wf(),
            ({
                let present = old(self).spec_claims().contains_key(redemption_id@);
                let c = old(self).spec_claims()[redemption_id@];
                &&& !present ==> (r matches Err(e) && e is MissingClaim && e.spec_detail() == "rdm-"@
                    + decimal(redemption_id@ as nat) && *final(self) == *old(self))
                &&& present && !(c.spec_state() is Pending) ==> (r matches Err(e) && e is InvalidStatus
                    && e.spec_detail() == not_pending_detail(redemption_id) && final(self).claim_entries() == old(self).claim_entries() && final(self).spec_claims() == old(self).spec_claims())
                &&& present && c.spec_state() is Pending ==> (r == Ok::<Amount, CrownError>(c.spec_amount())
                    && final(self).spec_claims() == old(self).spec_claims().insert(redemption_id@, c.with_state(ClaimState::Released))
                    && exists|i: int| 0 <= i < old(self).claim_entries().len() && old(self).claim_entries()[i].0 == redemption_id@
                        && final(self).claim_entries() == old(self).claim_entries().update(i, (redemption_id@, c.with_state(ClaimState::Released))))
            }),
    {
        let i = match self.claims.find(redemption_id.raw()) {
            Some(i) => i,
            None => {
                return Err(CrownError::MissingClaim(redemption_id.label()));
            },
        };
        proof { self.claims.lemma_entry(i as int); }
        let (_, c) = self.claims.entry_at(i);
        let amount = c.amount;
        self.mark_at(i, false)?;
        Ok(amount)
    }

    /// Consumes a claim that is due on `day` and returns it as it was;
    /// fails with `MissingClaim`, or `WindowNotReady` when it is not open
    /// and due.
    pub fn consume_claim(&mut self, redemption_id: RedemptionId, day: EpochDay) -> (r: CrownResult<PriorityClaim>)
        requires
            old(self).wf(),
        ensures
            final(self).wf(),
            ({
                let present = old(self).spec_claims().contains_key(redemption_id@);
                let c = old(self).spec_claims()[redemption_id@];
                &&& !present ==> (r matches Err(e) && e is MissingClaim && e.spec_detail() == "rdm-"@ + decimal(
                    redemption_id@ as nat,
                ) && *final(self) == *old(self))
                &&& present && !c.spec_is_mature(day) ==> (r matches Err(e) && e is WindowNotReady && e.spec_detail()
                    == "claim "@ + "rdm-"@ + decimal(redemption_id@ as nat) + " unlocks at day "@ + decimal(
                    c.spec_unlock_day()@ as nat,
                ) && *final(self) == *old(self))
                &&& present && c.spec_is_mature(day) ==> (r == Ok::<PriorityClaim, CrownError>(c)
                    && final(self).spec_claims() == old(self).spec_claims().insert(redemption_id@, c.with_state(ClaimState::Consumed))
                    && exists|i: int| 0 <= i < old(self).claim_entries().len() && old(self).claim_entries()[i].0 == redemption_id@
                        && final(self).claim_entries() == old(self).claim_entries().update(i, (redemption_id@, c.with_state(ClaimState::Consumed))))
            }),
    {
        let i = match self.claims.find(redemption_id.raw()) {
            Some(i) => i,
            None => {
                return Err(CrownError::MissingClaim(redemption_id.label()));
            },
        };
        proof { self.claims.lemma_entry(i as int); }
        let (_, c) = self.claims.entry_at(i);
        let claim = *c;
        if !claim.is_mature(day) {
            let msg = String::from_str("claim ").concat(redemption_id.label().as_str()).concat(
                " unlocks at day ",
            ).concat(crate::text::decimal_string(claim.unlock_day.raw() as u128).as_str());
            return Err(CrownError::WindowNotReady(msg));
        }
        self.mark_at(i, true)?;
        Ok(claim)
    }

    /// The account's claims on the vault that are open and due on `day`, in
    /// redemption order, left as they are.
    pub(crate) fn mature_for_account(&self, account: AccountId, vault: VaultId, day: EpochDay) -> (r: Vec<PriorityClaim>)
        requires
            self.wf(),
        ensures
            r@ == mature_claims(self.claim_entries(), account, vault, day),
    {
        let mut out: Vec<PriorityClaim> = Vec::new();
        let n = self.claims.len();
        let ghost s = self.claims.entries();
        let mut i: usize = 0;
        while i < n
            invariant
                n == s.len(),
                i <= n,
                s == self.claim_entries(),
                out@ == mature_claims(s.take(i as int), account, vault, day),
            decreases n - i,
        {
            let (_, c) = self.claims.entry_at(i);
            let claim = *c;
            proof {
                assert(claim == s[i as int].1);
                assert(s.take(i as int + 1).drop_last() =~= s.take(i as int));
            }
            if claim.account == account && claim.vault == vault && claim.is_mature(day) {
                out.push(claim);
            }
            i = i + 1;
        }
        proof {
            assert(s.take(n as int) =~= s);
        }
        out
    }

    /// Consumes every claim of the account in the vault that is due on
    /// `day`, in redemption order, and returns them as they were.
    pub fn consume_mature_for_account(&mut self, account: AccountId, vault: VaultId, day: EpochDay) -> (r:
        CrownResult<Vec<PriorityClaim>>)
        requires
            old(self).wf(),
        ensures
            final(self).wf(),
            r matches Ok(v) && v@ == mature_claims(old(self).claim_entries(), account, vault, day),
            final(self).claim_entries().len() == old(self).claim_entries().len(),
            forall|i: int| 0 <= i < old(self).claim_entries().len() ==> {
                let e = #[trigger] old(self).claim_entries()[i];
                final(self).claim_entries()[i] == if e.1.spec_account() == account && e.1.spec_vault() == vault
                    && e.1.spec_is_mature(day) {
                    (e.0, e.1.with_state(ClaimState::Consumed))
                } else {
                    e
                }
            },
            final(self).spec_claims().dom() == old(self).spec_claims().dom(),
    {
        let mut out: Vec<PriorityClaim> = Vec::new();
        let n = self.claims.len();
        let ghost s = self.claims.entries();
        let mut i: usize = 0;
        while i < n
            invariant
                self.wf(),
                n == s.len(),
                i <= n,
                s == old(self).claim_entries(),
                out@ == mature_claims(s.take(i as int), account, vault, day),
                self.claims.entries().len() == n,
                forall|j: int| 0 <= j < n ==> {
                    let e = #[trigger] s[j];
                    self.claims.entries()[j] == if j < i && e.1.spec_account() == account && e.1.spec_vault() == vault
                        && e.1.spec_is_mature(day) {
                        (e.0, e.1.with_state(ClaimState::Consumed))
                    } else {
                        e
                    }
                },
            decreases n - i,
        {
            let (_, c) = self.claims.entry_at(i);
            let claim = *c;
            proof {
                assert(claim == s[i as int].1);
                assert(s.take(i as int + 1).drop_last() =~= s.take(i as int));
            }
            if claim.account == account && claim.vault == vault && claim.is_mature(day) {
                let ghost before = self.claims.entries();
                let _ = self.mark_at(i, true);
                out.push(claim);
                proof {
                    assert forall|j: int| 0 <= j < n implies {
                        let e = #[trigger] s[j];
                        self.claims.entries()[j] == if j < i + 1 && e.1.spec_account() == account && e.1.spec_vault() == vault
                            && e.1.spec_is_mature(day) {
                            (e.0, e.1.with_state(ClaimState::Consumed))
                        } else {
                            e
                        }
                    } by {
                        if j != i { assert(self.claims.entries()[j] == before[j]); }
                    }
                }
            }
            i = i + 1;
        }
        proof {
            assert(s.take(n as int) =~= s);
            assert forall|k: u64| self.spec_claims().dom().contains(k) <==> old(self).spec_claims().dom().contains(k) by {
                if crate::idmap::has_key(self.claims.entries(), k) {
                    let j = choose|j: int| 0 <= j < self.claims.entries().len() && self.claims.entries()[j].0 == k;
                    assert(s[j].0 == k);
                }
                if crate::idmap::has_key(s, k) {
                    let j = choose|j: int| 0 <= j < s.len() && s[j].0 == k;
                    assert(self.claims.entries()[j].0 == k);
                }
            }
            assert(self.spec_claims().dom() =~= old(self).spec_claims().dom());
        }
        Ok(out)
    }

    /// Total of the account's open claims in the vault; fails with
    /// `Arithmetic` on overflow.
    pub fn pending_for_account(&self, account: AccountId, vault: VaultId) -> (r: CrownResult<Amount>)
        requires
            self.wf(),
        ensures
            account_pending(self.claim_entries(), account, vault) <= amount_max() ==> (r matches Ok(a)
                && a@ == account_pending(self.claim_entries(), account, vault)),
            account_pending(self.claim_entries(), account, vault) > amount_max() ==> (r matches Err(e)
                && e is Arithmetic && e.spec_detail() == "amount addition overflow"@),
    {
        let ghost s = self.claims.entries();
        let mut total = Amount::new(0);
        let mut i: usize = 0;
        while i < self.claims.len()
            invariant
                s == self.claims.entries(),
                i <= s.len(),
                total@ == account_pending(s.take(i as int), account, vault),
            decreases s.len() - i,
        {
            let (_, c) = self.claims.entry_at(i);
            proof {
                assert(s.take(i as int + 1).drop_last() =~= s.take(i as int));
                assert(s.take(i as int + 1).last() == s[i as int]);
            }
            if c.account == account && c.vault == vault && c.state.is_open() {
                match total.checked_add(c.amount) {
                    Ok(t) => { total = t; },
                    Err(e) => {
                        proof { lemma_sum_prefix(s, i as int + 1, |c: PriorityClaim| pending_for(c, account, vault)); }
                        return Err(e);
                    },
                }
            }
            i = i + 1;
        }
        proof { assert(s.take(s.len() as int) =~= s); }
        Ok(total)
    }

    /// The amount of the redemption's claim while it is pending, else zero.
    pub fn pending_for_ticket(&self, redemption_id: RedemptionId) -> (r: Amount)
        requires
            self.wf(),
        ensures
            r@ == if self.spec_claims().contains_key(redemption_id@) {
                open_amount(self.spec_claims()[redemption_id@])
            } else {
                0
            },
    {
        match self.claims.get(redemption_id.raw()) {
            Some(c) => if c.state.is_open() { c.amount } else { Amount::new(0) },
            None => Amount::new(0),
        }
    }

    /// The open claims in redemption order.
    pub fn open_claims(&self) -> (r: Vec<&PriorityClaim>)
        ensures
            r@.map_values(|c: &PriorityClaim| *c) == open_claim_seq(self.claim_entries()),
    {
        let ghost s = self.claims.entries();
        let mut out: Vec<&PriorityClaim> = Vec::new();
        let mut i: usize = 0;
        while i < self.claims.len()
            invariant
                s == self.claims.entries(),
                i <= s.len(),
                out@.map_values(|c: &PriorityClaim| *c) == open_claim_seq(s.take(i as int)),
            decreases s.len() - i,
        {
            let (_, c) = self.claims.entry_at(i);
            proof {
                assert(s.take(i as int + 1).drop_last() =~= s.take(i as int));
            }
            if c.state.is_open() {
                out.push(c);
                proof {
                    assert(out@.map_values(|c: &PriorityClaim| *c) =~= open_claim_seq(s.take(i as int)).push(*c));
                }
            }
            i = i + 1;
        }
        proof { assert(s.take(s.len() as int) =~= s); }
        out
    }

    /// All claims in redemption order.
    pub fn all_claims(&self) -> (r: Vec<&PriorityClaim>)
        ensures
            r@.len() == self.claim_entries().len(),
            forall|i: int| 0 <= i < r@.len() ==> *(#[trigger] r@[i]) == self.claim_entries()[i].1,
    {
        let mut out: Vec<&PriorityClaim> = Vec::new();
        let mut i: usize = 0;
        while i < self.claims.len()
            invariant
                i <= self.claim_entries().len(),
                out@.len() == i,
                forall|j: int| 0 <= j < i ==> *(#[trigger] out@[j]) == self.claim_entries()[j].1,
            decreases self.claim_entries().len() - i,
        {
            let (_, c) = self.claims.entry_at(i);
            out.push(c);
            i = i + 1;
        }
        out
    }
}

/// A prefix sum never exceeds the whole sum.
pub proof fn lemma_sum_prefix<V>(s: Seq<(u64, V)>, k: int, f: spec_fn(V) -> nat)
    requires
        0 <= k <= s.len(),
    ensures
        sum_by(s.take(k), f) <= sum_by(s, f),
    decreases s.len(),
{
    if k < s.len() {
        assert(s.drop_last().take(k) =~= s.take(k));
        lemma_sum_prefix(s.drop_last(), k, f);
    } else {
        assert(s.take(k) =~= s);
    }
}

impl Default for PriorityBook {
    fn default() -> (r: Self)
        ensures
            r.wf(),
    {
        PriorityBook::new()
    }
}

} // verus!
