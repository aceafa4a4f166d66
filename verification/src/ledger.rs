use vstd::prelude::*;
use crate::accounts::balance_of;
use crate::amount::{amount_max, sum_amounts, Amount};
use crate::clock::EpochDay;
use crate::error::{CrownError, CrownResult};
use crate::events::{Event, EventBuilder, EventKind, EventView};
use crate::idmap::IdMap;
use crate::text::decimal;
use crate::ids::{AccountId, AssetId, IdAllocator, JournalId, RedemptionId, VaultId, WindowId};

verus! {

broadcast use crate::amount::group_amount;

/// The protocol's append-only event log.
#[derive(Debug, Clone)]
pub struct Journal {
    events: Vec<Event>,
}

impl Journal {
    pub closed spec fn spec_events(&self) -> Seq<EventView> {
        self.events@.map_values(|e: Event| e@)
    }

    pub fn new() -> (r: Self)
        ensures
            r.spec_events() == Seq::<EventView>::empty(),
    {
        let r = Journal { events: Vec::new() };
        assert(r.spec_events() =~= Seq::<EventView>::empty());
        r
    }

    pub fn push(&mut self, event: Event)
        ensures
            final(self).spec_events() == old(self).spec_events().push(event@),
    {
        self.events.push(event);
        assert(self.spec_events() =~= old(self).spec_events().push(event@));
    }

    pub fn events(&self) -> (r: &[Event])
        ensures
            r@.map_values(|e: Event| e@) == self.spec_events(),
    {
        self.events.as_slice()
    }

    pub fn len(&self) -> (r: usize)
        ensures
            r == self.spec_events().len(),
    {
        self.events.len()
    }

    pub fn is_empty(&self) -> (r: bool)
        ensures
            r == (self.spec_events().len() == 0),
    {
        self.events.len() == 0
    }

    pub fn last(&self) -> (r: Option<&Event>)
        ensures
            self.spec_events().len() == 0 ==> r is None,
            self.spec_events().len() > 0 ==> (r matches Some(e) && e@ == self.spec_events().last()),
    {
        if self.events.len() == 0 {
            None
        } else {
            Some(&self.events[self.events.len() - 1])
        }
    }

    pub fn by_kind(&self, kind: EventKind) -> (r: Vec<&Event>)
        ensures
            r@.map_values(|e: &Event| e@) == self.spec_events().filter(|e: EventView| e.kind == kind),
    {
        let mut out: Vec<&Event> = Vec::new();
        let mut i: usize = 0;
        while i < self.events.len()
            invariant
                i <= self.events@.len(),
                out@.map_values(|e: &Event| e@) == self.spec_events().take(i as int).filter(|e: EventView| e.kind == kind),
            decreases self.events@.len() - i,
        {
            let e = &self.events[i];
            proof {
                assert(self.spec_events().take(i as int + 1).drop_last() =~= self.spec_events().take(i as int));
                reveal(Seq::filter);
            }
            if *e.kind() == kind {
                out.push(e);
            }
            proof {
                assert(out@.map_values(|e: &Event| e@) =~= self.spec_events().take(i as int + 1).filter(|e: EventView| e.kind == kind));
            }
            i = i + 1;
        }
        proof { assert(self.spec_events().take(i as int) =~= self.spec_events()); }
        out
    }

    pub fn by_account(&self, account: AccountId) -> (r: Vec<&Event>)
        ensures
            r@.map_values(|e: &Event| e@) == self.spec_events().filter(|e: EventView| e.account == Some(account)),
    {
        let mut out: Vec<&Event> = Vec::new();
        let mut i: usize = 0;
        while i < self.events.len()
            invariant
                i <= self.events@.len(),
                out@.map_values(|e: &Event| e@) == self.spec_events().take(i as int).filter(|e: EventView| e.account == Some(account)),
            decreases self.events@.len() - i,
        {
            let e = &self.events[i];
            proof {
                assert(self.spec_events().take(i as int + 1).drop_last() =~= self.spec_events().take(i as int));
                reveal(Seq::filter);
            }
            let matches = match e.account() {
                Some(a) => a == account,
                None => false,
            };
            if matches {
                out.push(e);
            }
            proof {
                assert(out@.map_values(|e: &Event| e@) =~= self.spec_events().take(i as int + 1).filter(|e: EventView| e.account == Some(account)));
            }
            i = i + 1;
        }
        proof { assert(self.spec_events().take(i as int) =~= self.spec_events()); }
        out
    }

    pub fn by_redemption(&self, redemption: RedemptionId) -> (r: Vec<&Event>)
        ensures
            r@.map_values(|e: &Event| e@) == self.spec_events().filter(|e: EventView| e.redemption == Some(redemption)),
    {
        let mut out: Vec<&Event> = Vec::new();
        let mut i: usize = 0;
        while i < self.events.len()
            invariant
                i <= self.events@.len(),
                out@.map_values(|e: &Event| e@) == self.spec_events().take(i as int).filter(|e: EventView| e.redemption == Some(redemption)),
            decreases self.events@.len() - i,
        {
            let e = &self.events[i];
            proof {
                assert(self.spec_events().take(i as int + 1).drop_last() =~= self.spec_events().take(i as int));
                reveal(Seq::filter);
            }
            let matches = match e.redemption() {
                Some(x) => x == redemption,
                None => false,
            };
            if matches {
                out.push(e);
            }
            proof {
                assert(out@.map_values(|e: &Event| e@) =~= self.spec_events().take(i as int + 1).filter(|e: EventView| e.redemption == Some(redemption)));
            }
            i = i + 1;
        }
        proof { assert(self.spec_events().take(i as int) =~= self.spec_events()); }
        out
    }
}

impl Default for Journal {
    fn default() -> (r: Self)
        ensures
            r.spec_events() == Seq::<EventView>::empty(),
    {
        Journal::new()
    }
}

/// Aggregates gathered to check the protocol's invariants.
#[derive(Debug, Clone)]
pub struct LedgerTotals {
    vault_reserves: IdMap<Amount>,
    vault_shares: IdMap<Amount>,
    account_assets: IdMap<Amount>,
    account_shares: IdMap<Amount>,
    open_claims: IdMap<Amount>,
}

impl LedgerTotals {
    pub closed spec fn wf(&self) -> bool {
        &&& self.vault_reserves.wf()
        &&& self.vault_shares.wf()
        &&& self.account_assets.wf()
        &&& self.account_shares.wf()
        &&& self.open_claims.wf()
    }

    pub closed spec fn reserves_view(&self) -> Map<u64, Amount> {
        self.vault_reserves.view()
    }

    pub closed spec fn vault_shares_view(&self) -> Map<u64, Amount> {
        self.vault_shares.view()
    }

    pub closed spec fn account_assets_view(&self) -> Map<u64, Amount> {
        self.account_assets.view()
    }

    pub closed spec fn account_shares_view(&self) -> Map<u64, Amount> {
        self.account_shares.view()
    }

    pub closed spec fn open_claims_view(&self) -> Map<u64, Amount> {
        self.open_claims.view()
    }

    /// Vault reserves in vault order.
    pub closed spec fn reserve_entries(&self) -> Seq<(u64, Amount)> {
        self.vault_reserves.entries()
    }

    /// Vault share supplies in vault order.
    pub closed spec fn vault_share_entries(&self) -> Seq<(u64, Amount)> {
        self.vault_shares.entries()
    }

    /// Asset holdings of accounts in asset order.
    pub closed spec fn account_asset_entries(&self) -> Seq<(u64, Amount)> {
        self.account_assets.entries()
    }

    pub fn new() -> (r: Self)
        ensures
            r.wf(),
            r.reserves_view() == Map::<u64, Amount>::empty(),
            r.vault_shares_view() == Map::<u64, Amount>::empty(),
            r.account_assets_view() == Map::<u64, Amount>::empty(),
            r.account_shares_view() == Map::<u64, Amount>::empty(),
            r.open_claims_view() == Map::<u64, Amount>::empty(),
            r.reserve_entries().len() == 0,
            r.vault_share_entries().len() == 0,
            r.account_asset_entries().len() == 0,
    {
        LedgerTotals {
            vault_reserves: IdMap::new(),
            vault_shares: IdMap::new(),
            account_assets: IdMap::new(),
            account_shares: IdMap::new(),
            open_claims: IdMap::new(),
        }
    }

    pub fn set_vault_reserve(&mut self, vault: VaultId, amount: Amount)
        requires
            old(self).wf(),
        ensures
            final(self).wf(),
            final(self).reserves_view() == old(self).reserves_view().insert(vault@, amount),
            final(self).vault_shares_view() == old(self).vault_shares_view(),
            final(self).account_assets_view() == old(self).account_assets_view(),
            final(self).account_shares_view() == old(self).account_shares_view(),
            final(self).open_claims_view() == old(self).open_claims_view(),
            final(self).vault_share_entries() == old(self).vault_share_entries(),
            final(self).account_asset_entries() == old(self).account_asset_entries(),
    {
        self.vault_reserves.insert(vault.raw(), amount);
    }

    pub fn set_vault_shares(&mut self, vault: VaultId, amount: Amount)
        requires
            old(self).wf(),
        ensures
            final(self).wf(),
            final(self).vault_shares_view() == old(self).vault_shares_view().insert(vault@, amount),
            final(self).reserves_view() == old(self).reserves_view(),
            final(self).account_assets_view() == old(self).account_assets_view(),
            final(self).account_shares_view() == old(self).account_shares_view(),
            final(self).open_claims_view() == old(self).open_claims_view(),
            final(self).reserve_entries() == old(self).reserve_entries(),
            final(self).account_asset_entries() == old(self).account_asset_entries(),
    {
        self.vault_shares.insert(vault.raw(), amount);
    }

    fn add_to(m: &mut IdMap<Amount>, k: u64, amount: Amount) -> (r: CrownResult<()>)
        requires
            old(m).wf(),
        ensures
            final(m).wf(),
            balance_of(old(m).view(), k) + amount@ > amount_max() ==> (r matches Err(e)
                && e is Arithmetic && e.spec_detail() == "amount addition overflow"@ && *final(m) == *old(m)),
            balance_of(old(m).view(), k) + amount@ <= amount_max() ==> (r is Ok && final(m).view()
                == old(m).view().insert(k, Amount::spec_new((balance_of(old(m).view(), k) + amount@) as u128))),
    {
        let current = match m.get(k) {
            Some(a) => *a,
            None => Amount::new(0),
        };
        let next = current.checked_add(amount)?;
        m.insert(k, next);
        Ok(())
    }

    pub fn add_account_asset(&mut self, asset: AssetId, amount: Amount) -> (r: CrownResult<()>)
        requires
            old(self).wf(),
        ensures
            final(self).wf(),
            final(self).reserves_view() == old(self).reserves_view(),
            final(self).vault_shares_view() == old(self).vault_shares_view(),
            final(self).account_shares_view() == old(self).account_shares_view(),
            final(self).open_claims_view() == old(self).open_claims_view(),
            final(self).reserve_entries() == old(self).reserve_entries(),
            final(self).vault_share_entries() == old(self).vault_share_entries(),
            balance_of(old(self).account_assets_view(), asset@) + amount@ > amount_max() ==> (r matches Err(e)
                && e is Arithmetic && e.spec_detail() == "amount addition overflow"@ && final(self).account_assets_view() == old(self).account_assets_view()),
            balance_of(old(self).account_assets_view(), asset@) + amount@ <= amount_max() ==> (r is Ok
                && final(self).account_assets_view() == old(self).account_assets_view().insert(
                asset@,
                Amount::spec_new((balance_of(old(self).account_assets_view(), asset@) + amount@) as u128),
            )),
    {
        Self::add_to(&mut self.account_assets, asset.raw(), amount)
    }

    pub fn add_account_shares(&mut self, vault: VaultId, amount: Amount) -> (r: CrownResult<()>)
        requires
            old(self).wf(),
        ensures
            final(self).wf(),
            final(self).reserves_view() == old(self).reserves_view(),
            final(self).vault_shares_view() == old(self).vault_shares_view(),
            final(self).account_assets_view() == old(self).account_assets_view(),
            final(self).open_claims_view() == old(self).open_claims_view(),
            final(self).reserve_entries() == old(self).reserve_entries(),
            final(self).vault_share_entries() == old(self).vault_share_entries(),
            final(self).account_asset_entries() == old(self).account_asset_entries(),
            balance_of(old(self).account_shares_view(), vault@) + amount@ > amount_max() ==> (r matches Err(e)
                && e is Arithmetic && e.spec_detail() == "amount addition overflow"@ && final(self).account_shares_view() == old(self).account_shares_view()),
            balance_of(old(self).account_shares_view(), vault@) + amount@ <= amount_max() ==> (r is Ok
                && final(self).account_shares_view() == old(self).account_shares_view().insert(
                vault@,
                Amount::spec_new((balance_of(old(self).account_shares_view(), vault@) + amount@) as u128),
            )),
    {
        Self::add_to(&mut self.account_shares, vault.raw(), amount)
    }

    pub fn add_open_claim(&mut self, vault: VaultId, amount: Amount) -> (r: CrownResult<()>)
        requires
            old(self).wf(),
        ensures
            final(self).wf(),
            final(self).reserves_view() == old(self).reserves_view(),
            final(self).vault_shares_view() == old(self).vault_shares_view(),
            final(self).account_assets_view() == old(self).account_assets_view(),
            final(self).account_shares_view() == old(self).account_shares_view(),
            final(self).reserve_entries() == old(self).reserve_entries(),
            final(self).vault_share_entries() == old(self).vault_share_entries(),
            final(self).account_asset_entries() == old(self).account_asset_entries(),
            balance_of(old(self).open_claims_view(), vault@) + amount@ > amount_max() ==> (r matches Err(e)
                && e is Arithmetic && e.spec_detail() == "amount addition overflow"@ && final(self).open_claims_view() == old(self).open_claims_view()),
            balance_of(old(self).open_claims_view(), vault@) + amount@ <= amount_max() ==> (r is Ok
                && final(self).open_claims_view() == old(self).open_claims_view().insert(
                vault@,
                Amount::spec_new((balance_of(old(self).open_claims_view(), vault@) + amount@) as u128),
            )),
    {
        Self::add_to(&mut self.open_claims, vault.raw(), amount)
    }

    fn read(m: &IdMap<Amount>, k: u64) -> (r: Amount)
        requires
            m.wf(),
        ensures
            r@ == balance_of(m.view(), k),
    {
        match m.get(k) {
            Some(a) => *a,
            None => Amount::new(0),
        }
    }

    pub fn vault_reserve(&self, vault: VaultId) -> (r: Amount)
        requires
            self.wf(),
        ensures
            r@ == balance_of(self.reserves_view(), vault@),
    {
        Self::read(&self.vault_reserves, vault.raw())
    }

    pub fn vault_shares(&self, vault: VaultId) -> (r: Amount)
        requires
            self.wf(),
        ensures
            r@ == balance_of(self.vault_shares_view(), vault@),
    {
        Self::read(&self.vault_shares, vault.raw())
    }

    pub fn account_shares(&self, vault: VaultId) -> (r: Amount)
        requires
            self.wf(),
        ensures
            r@ == balance_of(self.account_shares_view(), vault@),
    {
        Self::read(&self.account_shares, vault.raw())
    }

    pub fn open_claims(&self, vault: VaultId) -> (r: Amount)
        requires
            self.wf(),
        ensures
            r@ == balance_of(self.open_claims_view(), vault@),
    {
        Self::read(&self.open_claims, vault.raw())
    }

    /// Total assets held by accounts; fails with `Arithmetic` on overflow.
    pub fn total_account_assets(&self) -> (r: CrownResult<Amount>)
        ensures
            sum_amounts(self.account_asset_entries().map_values(|e: (u64, Amount)| e.1)) <= amount_max() ==> (r matches Ok(a)
                && a@ == sum_amounts(self.account_asset_entries().map_values(|e: (u64, Amount)| e.1))),
            sum_amounts(self.account_asset_entries().map_values(|e: (u64, Amount)| e.1)) > amount_max() ==> (r matches Err(e)
                && e is Arithmetic && e.spec_detail() == "amount addition overflow"@),
    {
        let mut values: Vec<Amount> = Vec::new();
        let mut i: usize = 0;
        while i < self.account_assets.len()
            invariant
                i <= self.account_assets.entries().len(),
                values@ == self.account_assets.entries().take(i as int).map_values(|e: (u64, Amount)| e.1),
            decreases self.account_assets.entries().len() - i,
        {
            let (_, a) = self.account_assets.entry_at(i);
            values.push(*a);
            proof {
                assert(self.account_assets.entries().take(i as int + 1).map_values(|e: (u64, Amount)| e.1)
                    =~= self.account_assets.entries().take(i as int).map_values(|e: (u64, Amount)| e.1).push(*a));
            }
            i = i + 1;
        }
        proof { assert(self.account_assets.entries().take(i as int) =~= self.account_assets.entries()); }
        Amount::checked_sum(values.as_slice())
    }
}

impl Default for LedgerTotals {
    fn default() -> (r: Self)
        ensures
            r.wf(),
            r.reserves_view() == Map::<u64, Amount>::empty(),
            r.vault_shares_view() == Map::<u64, Amount>::empty(),
            r.account_assets_view() == Map::<u64, Amount>::empty(),
            r.account_shares_view() == Map::<u64, Amount>::empty(),
            r.open_claims_view() == Map::<u64, Amount>::empty(),
    {
        LedgerTotals::new()
    }
}

/// Share supply of every vault matches what accounts hold.
pub open spec fn shares_conserved(totals: LedgerTotals) -> bool {
    forall|k: u64| #[trigger] totals.vault_shares_view().contains_key(k) ==>
        totals.vault_shares_view()[k]@ == balance_of(totals.account_shares_view(), k)
}

/// Every vault's reserve covers its open claims.
pub open spec fn claims_covered(totals: LedgerTotals) -> bool {
    forall|k: u64| #[trigger] totals.reserves_view().contains_key(k) ==>
        totals.reserves_view()[k]@ >= balance_of(totals.open_claims_view(), k)
}

/// Vault `k` has a share supply other than what accounts hold.
pub open spec fn conservation_gap(totals: LedgerTotals, k: u64) -> bool {
    totals.vault_shares_view().contains_key(k) && totals.vault_shares_view()[k]@ != balance_of(
        totals.account_shares_view(),
        k,
    )
}

/// Vault `k` has a reserve below its open claims.
pub open spec fn coverage_gap(totals: LedgerTotals, k: u64) -> bool {
    totals.reserves_view().contains_key(k) && totals.reserves_view()[k]@ < balance_of(totals.open_claims_view(), k)
}

/// The text of a failed share conservation check on vault `k`.
pub open spec fn conservation_detail(k: u64, supply: nat, held: nat) -> Seq<char> {
    "vault "@ + "vault-"@ + decimal(k as nat) + " shares "@ + decimal(supply) + " differ from account shares "@
        + decimal(held)
}

/// The text of a failed claim coverage check on vault `k`.
pub open spec fn coverage_detail(k: u64, reserve: nat, claims: nat) -> Seq<char> {
    "vault "@ + "vault-"@ + decimal(k as nat) + " reserve "@ + decimal(reserve) + " below open claims "@
        + decimal(claims)
}

/// The journal entry of an event that carries only a note.
pub open spec fn note_event(id: u64, day: EpochDay, kind: EventKind, note: Seq<char>) -> EventView {
    EventView {
        id: JournalId::spec_new(id),
        day,
        kind,
        account: None,
        vault: None,
        asset: None,
        redemption: None,
        window: None,
        amount: None,
        note,
    }
}

/// Identifier allocation and the event journal.
#[derive(Debug, Clone)]
pub struct ProtocolLedger {
    allocator: IdAllocator,
    journal: Journal,
}

impl ProtocolLedger {
    pub closed spec fn spec_allocator(&self) -> IdAllocator {
        self.allocator
    }

    pub closed spec fn spec_events(&self) -> Seq<EventView> {
        self.journal.spec_events()
    }

    /// Everything but the named counter and the journal is unchanged.
    pub open spec fn same_ids_except(&self, other: &Self, changed: Seq<char>) -> bool {
        self.spec_allocator().same_except(&other.spec_allocator(), changed)
    }

    pub fn new() -> (r: Self)
        ensures
            r.spec_events() == Seq::<EventView>::empty(),
            r.spec_allocator().last_account() == 0,
            r.spec_allocator().last_asset() == 0,
            r.spec_allocator().last_vault() == 0,
            r.spec_allocator().last_redemption() == 0,
            r.spec_allocator().last_window() == 0,
            r.spec_allocator().last_journal() == 0,
            r.spec_allocator().last_route() == 0,
    {
        ProtocolLedger { allocator: IdAllocator::default(), journal: Journal::new() }
    }

    pub fn allocator(&self) -> (r: &IdAllocator)
        ensures
            *r == self.spec_allocator(),
    {
        &self.allocator
    }

    pub fn allocator_mut(&mut self) -> (r: &mut IdAllocator)
        ensures
            *r == old(self).spec_allocator(),
            final(self).spec_allocator() == *final(r),
            final(self).spec_events() == old(self).spec_events(),
    {
        &mut self.allocator
    }

    pub fn journal(&self) -> (r: &Journal)
        ensures
            r.spec_events() == self.spec_events(),
    {
        &self.journal
    }

    pub fn next_account(&mut self) -> (r: AccountId)
        requires
            old(self).spec_allocator().last_account() < u64::MAX,
        ensures
            r@ == final(self).spec_allocator().last_account(),
            final(self).spec_allocator().last_account() == old(self).spec_allocator().last_account() + 1,
            final(self).same_ids_except(old(self), "account"@),
            final(self).spec_events() == old(self).spec_events(),
    {
        self.allocator.account()
    }

    pub fn next_asset(&mut self) -> (r: AssetId)
        requires
            old(self).spec_allocator().last_asset() < u64::MAX,
        ensures
            r@ == final(self).spec_allocator().last_asset(),
            final(self).spec_allocator().last_asset() == old(self).spec_allocator().last_asset() + 1,
            final(self).same_ids_except(old(self), "asset"@),
            final(self).spec_events() == old(self).spec_events(),
    {
        self.allocator.asset()
    }

    pub fn next_vault(&mut self) -> (r: VaultId)
        requires
            old(self).spec_allocator().last_vault() < u64::MAX,
        ensures
            r@ == final(self).spec_allocator().last_vault(),
            final(self).spec_allocator().last_vault() == old(self).spec_allocator().last_vault() + 1,
            final(self).same_ids_except(old(self), "vault"@),
            final(self).spec_events() == old(self).spec_events(),
    {
        self.allocator.vault()
    }

    pub fn next_redemption(&mut self) -> (r: RedemptionId)
        requires
            old(self).spec_allocator().last_redemption() < u64::MAX,
        ensures
            r@ == final(self).spec_allocator().last_redemption(),
            final(self).spec_allocator().last_redemption() == old(self).spec_allocator().last_redemption() + 1,
            final(self).same_ids_except(old(self), "redemption"@),
            final(self).spec_events() == old(self).spec_events(),
    {
        self.allocator.redemption()
    }

    pub fn next_window(&mut self) -> (r: WindowId)
        requires
            old(self).spec_allocator().last_window() < u64::MAX,
        ensures
            r@ == final(self).spec_allocator().last_window(),
            final(self).spec_allocator().last_window() == old(self).spec_allocator().last_window() + 1,
            final(self).same_ids_except(old(self), "window"@),
            final(self).spec_events() == old(self).spec_events(),
    {
        self.allocator.window()
    }

    pub fn next_journal(&mut self) -> (r: JournalId)
        requires
            old(self).spec_allocator().last_journal() < u64::MAX,
        ensures
            r@ == final(self).spec_allocator().last_journal(),
            final(self).spec_allocator().last_journal() == old(self).spec_allocator().last_journal() + 1,
            final(self).same_ids_except(old(self), "journal"@),
            final(self).spec_events() == old(self).spec_events(),
    {
        self.allocator.journal()
    }

    /// Starts an event under the next journal identifier.
    pub fn event(&mut self, day: EpochDay, kind: EventKind) -> (r: EventBuilder)
        requires
            old(self).spec_allocator().last_journal() < u64::MAX,
        ensures
            final(self).spec_allocator().last_journal() == old(self).spec_allocator().last_journal() + 1,
            final(self).same_ids_except(old(self), "journal"@),
            final(self).spec_events() == old(self).spec_events(),
            r@.id@ == final(self).spec_allocator().last_journal(),
            r@.day == day,
            r@.kind == kind,
            r@.account is None,
            r@.vault is None,
            r@.asset is None,
            r@.redemption is None,
            r@.window is None,
            r@.amount is None,
            r@.note == Seq::<char>::empty(),
    {
        let id = self.next_journal();
        Event::builder(id, day, kind)
    }

    pub fn record(&mut self, event: Event)
        ensures
            final(self).spec_allocator() == old(self).spec_allocator(),
            final(self).spec_events() == old(self).spec_events().push(event@),
    {
        self.journal.push(event);
    }

    /// Records an event carrying only a note.
    pub fn record_simple(&mut self, day: EpochDay, kind: EventKind, note: &str)
        requires
            old(self).spec_allocator().last_journal() < u64::MAX,
        ensures
            final(self).spec_allocator().last_journal() == old(self).spec_allocator().last_journal() + 1,
            final(self).same_ids_except(old(self), "journal"@),
            final(self).spec_events() == old(self).spec_events().push(
                note_event((old(self).spec_allocator().last_journal() + 1) as u64, day, kind, note@),
            ),
    {
        let event = self.event(day, kind).note(note).build();
        proof {
            let l = self.spec_allocator().last_journal();
            JournalId::lemma_view(event@.id, JournalId::spec_new(l), l);
        }
        self.record(event);
    }

    /// Fails with `Invariant` when some vault's share supply differs from the
    /// shares its accounts hold; otherwise records the check.
    pub fn assert_share_conservation(&mut self, day: EpochDay, totals: &LedgerTotals) -> (r: CrownResult<()>)
        requires
            totals.wf(),
            old(self).spec_allocator().last_journal() < u64::MAX,
        ensures
            !shares_conserved(*totals) ==> (r matches Err(e) && e is Invariant && *final(self) == *old(self)
                && exists|k: u64| #[trigger] conservation_gap(*totals, k)
                    && (forall|k2: u64| k2 < k ==> !#[trigger] conservation_gap(*totals, k2))
                    && e.spec_detail() == conservation_detail(k, totals.vault_shares_view()[k]@,
                        balance_of(totals.account_shares_view(), k))),
            shares_conserved(*totals) ==> (r is Ok
                && final(self).spec_allocator().last_journal() == old(self).spec_allocator().last_journal() + 1
                && final(self).same_ids_except(old(self), "journal"@)
                && final(self).spec_events() == old(self).spec_events().push(note_event(
                (old(self).spec_allocator().last_journal() + 1) as u64,
                day,
                EventKind::InvariantChecked,
                "share conservation"@,
            ))),
    {
        let n = totals.vault_shares.len();
        let mut i: usize = 0;
        while i < n
            invariant
                totals.wf(),
                n == totals.vault_shares.entries().len(),
                i <= n,
                forall|j: int| 0 <= j < i ==> (#[trigger] totals.vault_shares.entries()[j]).1@
                    == balance_of(totals.account_shares.view(), totals.vault_shares.entries()[j].0),
            decreases n - i,
        {
            let (k, shares) = totals.vault_shares.entry_at(i);
            let vault = VaultId::new(k);
            let account_shares = totals.account_shares(vault);
            if shares.raw() != account_shares.raw() {
                proof {
                    totals.vault_shares.lemma_entry(i as int);
                    assert(totals.vault_shares_view().contains_key(k));
                    assert(!shares_conserved(*totals));
                    assert(conservation_gap(*totals, k));
                    assert forall|k2: u64| k2 < k implies !#[trigger] conservation_gap(*totals, k2) by {
                        if conservation_gap(*totals, k2) {
                            let j = totals.vault_shares.lemma_key(k2);
                            if j >= i {
                                assert(totals.vault_shares.entries()[i as int].0 <= totals.vault_shares.entries()[j].0);
                            }
                        }
                    }
                }
                let msg = String::from_str("vault ").concat(vault.label().as_str()).concat(" shares ").concat(
                    shares.to_text().as_str(),
                ).concat(" differ from account shares ").concat(account_shares.to_text().as_str());
                return Err(CrownError::Invariant(msg));
            }
            i = i + 1;
        }
        proof {
            assert forall|k: u64| #[trigger] totals.vault_shares_view().contains_key(k) implies
                totals.vault_shares_view()[k]@ == balance_of(totals.account_shares_view(), k) by {
                let j = totals.vault_shares.lemma_key(k);
                assert(totals.vault_shares.entries()[j].1@ == balance_of(totals.account_shares.view(), totals.vault_shares.entries()[j].0));
            }
        }
        self.record_simple(day, EventKind::InvariantChecked, "share conservation");
        Ok(())
    }

    /// Fails with `Invariant` when some vault's reserve is below its open
    /// claims; otherwise records the check.
    pub fn assert_claim_coverage(&mut self, day: EpochDay, totals: &LedgerTotals) -> (r: CrownResult<()>)
        requires
            totals.wf(),
            old(self).spec_allocator().last_journal() < u64::MAX,
        ensures
            !claims_covered(*totals) ==> (r matches Err(e) && e is Invariant && *final(self) == *old(self)
                && exists|k: u64| #[trigger] coverage_gap(*totals, k)
                    && (forall|k2: u64| k2 < k ==> !#[trigger] coverage_gap(*totals, k2))
                    && e.spec_detail() == coverage_detail(k, totals.reserves_view()[k]@,
                        balance_of(totals.open_claims_view(), k))),
            claims_covered(*totals) ==> (r is Ok
                && final(self).spec_allocator().last_journal() == old(self).spec_allocator().last_journal() + 1
                && final(self).same_ids_except(old(self), "journal"@)
                && final(self).spec_events() == old(self).spec_events().push(note_event(
                (old(self).spec_allocator().last_journal() + 1) as u64,
                day,
                EventKind::InvariantChecked,
                "claim coverage"@,
            ))),
    {
        let n = totals.vault_reserves.len();
        let mut i: usize = 0;
        while i < n
            invariant
                totals.wf(),
                n == totals.vault_reserves.entries().len(),
                i <= n,
                forall|j: int| 0 <= j < i ==> (#[trigger] totals.vault_reserves.entries()[j]).1@
                    >= balance_of(totals.open_claims.view(), totals.vault_reserves.entries()[j].0),
            decreases n - i,
        {
            let (k, reserve) = totals.vault_reserves.entry_at(i);
            let vault = VaultId::new(k);
            let claims = totals.open_claims(vault);
            if reserve.raw() < claims.raw() {
                proof {
                    totals.vault_reserves.lemma_entry(i as int);
                    assert(totals.reserves_view().contains_key(k));
                    assert(!claims_covered(*totals));
                    assert(coverage_gap(*totals, k));
                    assert forall|k2: u64| k2 < k implies !#[trigger] coverage_gap(*totals, k2) by {
                        if coverage_gap(*totals, k2) {
                            let j = totals.vault_reserves.lemma_key(k2);
                            if j >= i {
                                assert(totals.vault_reserves.entries()[i as int].0 <= totals.vault_reserves.entries()[j].0);
                            }
                        }
                    }
                }
                let msg = String::from_str("vault ").concat(vault.label().as_str()).concat(" reserve ").concat(
                    reserve.to_text().as_str(),
                ).concat(" below open claims ").concat(claims.to_text().as_str());
                return Err(CrownError::Invariant(msg));
            }
            i = i + 1;
        }
        proof {
            assert forall|k: u64| #[trigger] totals.reserves_view().contains_key(k) implies
                totals.reserves_view()[k]@ >= balance_of(totals.open_claims_view(), k) by {
                let j = totals.vault_reserves.lemma_key(k);
                assert(totals.vault_reserves.entries()[j].1@ >= balance_of(totals.open_claims.view(), totals.vault_reserves.entries()[j].0));
            }
        }
        self.record_simple(day, EventKind::InvariantChecked, "claim coverage");
        Ok(())
    }
}

impl Default for ProtocolLedger {
    fn default() -> (r: Self)
        ensures
            r.spec_events() == Seq::<EventView>::empty(),
            r.spec_allocator().last_journal() == 0,
    {
        ProtocolLedger::new()
    }
}

} // verus!
