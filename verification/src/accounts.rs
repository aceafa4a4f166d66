use vstd::prelude::*;
use crate::amount::{amount_max, Amount};
use crate::error::{CrownError, CrownResult};
use crate::idmap::{entries_map, sorted_keys, IdMap};
use crate::ids::{AccountId, AssetId, VaultId};
use crate::text::{blank, decimal, is_blank, lower, to_lower};

verus! {

broadcast use crate::amount::group_amount;

#[derive(Debug, Clone, Copy, PartialEq, Eq, Structural, PartialOrd, Ord)]
pub enum AccountTier {
    Standard,
    Vip,
    Institutional,
}

impl AccountTier {
    pub open spec fn spec_priority_weight(self) -> u32 {
        match self {
            AccountTier::Standard => 10,
            AccountTier::Vip => 60,
            AccountTier::Institutional => 90,
        }
    }

    pub open spec fn spec_label(self) -> Seq<char> {
        match self {
            AccountTier::Standard => "standard"@,
            AccountTier::Vip => "vip"@,
            AccountTier::Institutional => "institutional"@,
        }
    }

    pub open spec fn spec_may_use_priority(self) -> bool {
        self is Vip || self is Institutional
    }

    pub fn priority_weight(self) -> (r: u32)
        ensures
            r == self.spec_priority_weight(),
    {
        match self {
            AccountTier::Standard => 10,
            AccountTier::Vip => 60,
            AccountTier::Institutional => 90,
        }
    }

    pub fn label(self) -> (r: &'static str)
        ensures
            r@ == self.spec_label(),
    {
        match self {
            AccountTier::Standard => "standard",
            AccountTier::Vip => "vip",
            AccountTier::Institutional => "institutional",
        }
    }

    pub fn may_use_priority(self) -> (r: bool)
        ensures
            r == self.spec_may_use_priority(),
    {
        match self {
            AccountTier::Vip | AccountTier::Institutional => true,
            AccountTier::Standard => false,
        }
    }
}

/// The balance recorded under `k`, zero when there is none.
pub open spec fn balance_of(m: Map<u64, Amount>, k: u64) -> nat {
    if m.contains_key(k) { m[k]@ } else { 0 }
}

/// The text of a refused debit: what `what` (a vault or an asset, by its
/// label) holds and what was asked.
pub open spec fn shortage_detail(what: Seq<char>, held: nat, needed: nat) -> Seq<char> {
    what + " has "@ + decimal(held) + ", needs "@ + decimal(needed)
}

/// The balances of `m` after setting `k` to `v`, dropping the entry when `v`
/// is zero.
pub open spec fn set_or_drop(m: Map<u64, Amount>, k: u64, v: Amount) -> Map<u64, Amount> {
    if v@ == 0 { m.remove(k) } else { m.insert(k, v) }
}

/// Share, asset and pending-asset balances of one account.
#[derive(Debug, Clone)]
pub struct Portfolio {
    shares: IdMap<Amount>,
    assets: IdMap<Amount>,
    pending_assets: IdMap<Amount>,
}

impl Portfolio {
    pub closed spec fn wf(&self) -> bool {
        self.shares.wf() && self.assets.wf() && self.pending_assets.wf()
    }

    /// Share balances by vault number.
    pub closed spec fn shares_view(&self) -> Map<u64, Amount> {
        self.shares.view()
    }

    /// Asset balances by asset number.
    pub closed spec fn assets_view(&self) -> Map<u64, Amount> {
        self.assets.view()
    }

    /// Reserved pending asset balances by asset number.
    pub closed spec fn pending_view(&self) -> Map<u64, Amount> {
        self.pending_assets.view()
    }

    /// Share positions in increasing vault order.
    pub closed spec fn share_entries(&self) -> Seq<(u64, Amount)> {
        self.shares.entries()
    }

    /// Asset positions in increasing asset order.
    pub closed spec fn asset_entries(&self) -> Seq<(u64, Amount)> {
        self.assets.entries()
    }

    /// The positions are in strictly increasing key order and describe the
    /// balances.
    pub proof fn lemma_entries(&self)
        requires
            self.wf(),
        ensures
            sorted_keys(self.share_entries()),
            sorted_keys(self.asset_entries()),
            self.shares_view() == entries_map(self.share_entries()),
            self.assets_view() == entries_map(self.asset_entries()),
    {
    }

    pub open spec fn spec_share(&self, vault: VaultId) -> nat {
        balance_of(self.shares_view(), vault@)
    }

    pub open spec fn spec_asset(&self, asset: AssetId) -> nat {
        balance_of(self.assets_view(), asset@)
    }

    pub open spec fn spec_pending(&self, asset: AssetId) -> nat {
        balance_of(self.pending_view(), asset@)
    }

    pub fn new() -> (r: Self)
        ensures
            r.wf(),
            r.shares_view() == Map::<u64, Amount>::empty(),
            r.assets_view() == Map::<u64, Amount>::empty(),
            r.pending_view() == Map::<u64, Amount>::empty(),
            r.share_entries().len() == 0,
            r.asset_entries().len() == 0,
    {
        Portfolio { shares: IdMap::new(), assets: IdMap::new(), pending_assets: IdMap::new() }
    }

    fn balance(m: &IdMap<Amount>, k: u64) -> (r: Amount)
        requires
            m.wf(),
        ensures
            r@ == balance_of(m.view(), k),
    {
        match m.get(k) {
            Some(a) => *a,
            None => Amount::new(0),
        }
    }

    pub fn share_balance(&self, vault: VaultId) -> (r: Amount)
        requires
            self.wf(),
        ensures
            r@ == self.spec_share(vault),
    {
        Self::balance(&self.shares, vault.raw())
    }

    pub fn asset_balance(&self, asset: AssetId) -> (r: Amount)
        requires
            self.wf(),
        ensures
            r@ == self.spec_asset(asset),
    {
        Self::balance(&self.assets, asset.raw())
    }

    pub fn pending_asset_balance(&self, asset: AssetId) -> (r: Amount)
        requires
            self.wf(),
        ensures
            r@ == self.spec_pending(asset),
    {
        Self::balance(&self.pending_assets, asset.raw())
    }

    fn credit(m: &mut IdMap<Amount>, k: u64, amount: Amount) -> (r: CrownResult<()>)
        requires
            old(m).wf(),
        ensures
            final(m).wf(),
            balance_of(old(m).view(), k) + amount@ > amount_max() ==> (r matches Err(e)
                && e is Arithmetic && e.spec_detail() == "amount addition overflow"@ && *final(m) == *old(m)),
            balance_of(old(m).view(), k) + amount@ <= amount_max() ==> (r is Ok && final(m).view()
                == old(m).view().insert(k, Amount::spec_new((balance_of(old(m).view(), k) + amount@) as u128))),
    {
        let next = Self::balance(m, k).checked_add(amount)?;
                m.insert(k, next);
        Ok(())
    }

    fn debit(m: &mut IdMap<Amount>, k: u64, amount: Amount) -> (r: Option<Amount>)
        requires
            old(m).wf(),
        ensures
            final(m).wf(),
            balance_of(old(m).view(), k) < amount@ ==> (r matches Some(c) && c@ == balance_of(old(m).view(), k)
                && *final(m) == *old(m)),
            balance_of(old(m).view(), k) >= amount@ ==> (r is None && final(m).view() == set_or_drop(
                old(m).view(),
                k,
                Amount::spec_new((balance_of(old(m).view(), k) - amount@) as u128),
            )),
    {
        let current = Self::balance(m, k);
        if current.raw() < amount.raw() {
            return Some(current);
        }
        let next = Amount::new(current.raw() - amount.raw());
                if next.is_zero() {
            let _ = m.remove(k);
        } else {
            m.insert(k, next);
        }
        None
    }

    pub fn credit_shares(&mut self, vault: VaultId, amount: Amount) -> (r: CrownResult<()>)
        requires
            old(self).wf(),
        ensures
            final(self).wf(),
            final(self).assets_view() == old(self).assets_view(),
            final(self).asset_entries() == old(self).asset_entries(),
            final(self).pending_view() == old(self).pending_view(),
            old(self).spec_share(vault) + amount@ > amount_max() ==> (r matches Err(e)
                && e is Arithmetic && e.spec_detail() == "amount addition overflow"@
                && final(self).shares_view() == old(self).shares_view()),
            old(self).spec_share(vault) + amount@ <= amount_max() ==> (r is Ok
                && final(self).shares_view() == old(self).shares_view().insert(
                vault@,
                Amount::spec_new((old(self).spec_share(vault) + amount@) as u128),
            )),
    {
        Self::credit(&mut self.shares, vault.raw(), amount)
    }

    /// Fails with `InsufficientShares` when the balance is below `amount`;
    /// a balance that reaches zero is removed.
    pub fn debit_shares(&mut self, vault: VaultId, amount: Amount) -> (r: CrownResult<()>)
        requires
            old(self).wf(),
        ensures
            final(self).wf(),
            final(self).assets_view() == old(self).assets_view(),
            final(self).asset_entries() == old(self).asset_entries(),
            final(self).pending_view() == old(self).pending_view(),
            old(self).spec_share(vault) < amount@ ==> (r matches Err(e) && e is InsufficientShares
                && e.spec_detail() == shortage_detail("vault "@ + "vault-"@ + decimal(vault@ as nat),
                old(self).spec_share(vault), amount@) && final(self).shares_view() == old(self).shares_view()),
            old(self).spec_share(vault) >= amount@ ==> (r is Ok && final(self).shares_view()
                == set_or_drop(
                old(self).shares_view(),
                vault@,
                Amount::spec_new((old(self).spec_share(vault) - amount@) as u128),
            )),
    {
        match Self::debit(&mut self.shares, vault.raw(), amount) {
            Some(current) => {
                let msg = String::from_str("vault ").concat(vault.label().as_str()).concat(
                    " has ",
                ).concat(current.to_text().as_str()).concat(", needs ").concat(
                    amount.to_text().as_str(),
                );
                Err(CrownError::InsufficientShares(msg))
            },
            None => Ok(()),
        }
    }

    pub fn credit_asset(&mut self, asset: AssetId, amount: Amount) -> (r: CrownResult<()>)
        requires
            old(self).wf(),
        ensures
            final(self).wf(),
            final(self).shares_view() == old(self).shares_view(),
            final(self).share_entries() == old(self).share_entries(),
            final(self).pending_view() == old(self).pending_view(),
            old(self).spec_asset(asset) + amount@ > amount_max() ==> (r matches Err(e)
                && e is Arithmetic && e.spec_detail() == "amount addition overflow"@
                && final(self).assets_view() == old(self).assets_view()),
            old(self).spec_asset(asset) + amount@ <= amount_max() ==> (r is Ok
                && final(self).assets_view() == old(self).assets_view().insert(
                asset@,
                Amount::spec_new((old(self).spec_asset(asset) + amount@) as u128),
            )),
    {
        Self::credit(&mut self.assets, asset.raw(), amount)
    }

    /// Fails with `InsufficientAssets` when the balance is below `amount`.
    pub fn debit_asset(&mut self, asset: AssetId, amount: Amount) -> (r: CrownResult<()>)
        requires
            old(self).wf(),
        ensures
            final(self).wf(),
            final(self).shares_view() == old(self).shares_view(),
            final(self).share_entries() == old(self).share_entries(),
            final(self).pending_view() == old(self).pending_view(),
            old(self).spec_asset(asset) < amount@ ==> (r matches Err(e) && e is InsufficientAssets
                && e.spec_detail() == shortage_detail("asset "@ + "asset-"@ + decimal(asset@ as nat),
                old(self).spec_asset(asset), amount@) && final(self).assets_view() == old(self).assets_view()),
            old(self).spec_asset(asset) >= amount@ ==> (r is Ok && final(self).assets_view()
                == set_or_drop(
                old(self).assets_view(),
                asset@,
                Amount::spec_new((old(self).spec_asset(asset) - amount@) as u128),
            )),
    {
        match Self::debit(&mut self.assets, asset.raw(), amount) {
            Some(current) => {
                let msg = String::from_str("asset ").concat(asset.label().as_str()).concat(
                    " has ",
                ).concat(current.to_text().as_str()).concat(", needs ").concat(
                    amount.to_text().as_str(),
                );
                Err(CrownError::InsufficientAssets(msg))
            },
            None => Ok(()),
        }
    }

    pub fn reserve_pending_asset(&mut self, asset: AssetId, amount: Amount) -> (r: CrownResult<()>)
        requires
            old(self).wf(),
        ensures
            final(self).wf(),
            final(self).shares_view() == old(self).shares_view(),
            final(self).share_entries() == old(self).share_entries(),
            final(self).assets_view() == old(self).assets_view(),
            final(self).asset_entries() == old(self).asset_entries(),
            old(self).spec_pending(asset) + amount@ > amount_max() ==> (r matches Err(e)
                && e is Arithmetic && e.spec_detail() == "amount addition overflow"@
                && final(self).pending_view() == old(self).pending_view()),
            old(self).spec_pending(asset) + amount@ <= amount_max() ==> (r is Ok
                && final(self).pending_view() == old(self).pending_view().insert(
                asset@,
                Amount::spec_new((old(self).spec_pending(asset) + amount@) as u128),
            )),
    {
        Self::credit(&mut self.pending_assets, asset.raw(), amount)
    }

    /// Fails with `Invariant` when the pending balance is below `amount`.
    pub fn release_pending_asset(&mut self, asset: AssetId, amount: Amount) -> (r: CrownResult<()>)
        requires
            old(self).wf(),
        ensures
            final(self).wf(),
            final(self).shares_view() == old(self).shares_view(),
            final(self).share_entries() == old(self).share_entries(),
            final(self).assets_view() == old(self).assets_view(),
            final(self).asset_entries() == old(self).asset_entries(),
            old(self).spec_pending(asset) < amount@ ==> (r matches Err(e) && e is Invariant
                && e.spec_detail() == shortage_detail("pending asset "@ + "asset-"@ + decimal(asset@ as nat),
                old(self).spec_pending(asset), amount@) && final(self).pending_view() == old(self).pending_view()),
            old(self).spec_pending(asset) >= amount@ ==> (r is Ok && final(self).pending_view()
                == set_or_drop(
                old(self).pending_view(),
                asset@,
                Amount::spec_new((old(self).spec_pending(asset) - amount@) as u128),
            )),
    {
        match Self::debit(&mut self.pending_assets, asset.raw(), amount) {
            Some(current) => {
                let msg = String::from_str("pending asset ").concat(asset.label().as_str()).concat(
                    " has ",
                ).concat(current.to_text().as_str()).concat(", needs ").concat(
                    amount.to_text().as_str(),
                );
                Err(CrownError::Invariant(msg))
            },
            None => Ok(()),
        }
    }

    /// Share positions in increasing vault order.
    pub fn share_positions(&self) -> (r: Vec<(VaultId, Amount)>)
        requires
            self.wf(),
        ensures
            r@.len() == self.share_entries().len(),
            forall|i: int| 0 <= i < r@.len() ==> (#[trigger] r@[i]).0@ == self.share_entries()[i].0
                && r@[i].1 == self.share_entries()[i].1,
    {
        Self::positions(&self.shares)
    }

    /// Asset positions in increasing asset order.
    pub fn asset_positions(&self) -> (r: Vec<(AssetId, Amount)>)
        requires
            self.wf(),
        ensures
            r@.len() == self.asset_entries().len(),
            forall|i: int| 0 <= i < r@.len() ==> (#[trigger] r@[i]).0@ == self.asset_entries()[i].0
                && r@[i].1 == self.asset_entries()[i].1,
    {
        let mut out: Vec<(AssetId, Amount)> = Vec::new();
        let mut i: usize = 0;
        while i < self.assets.len()
            invariant
                i <= self.assets.entries().len(),
                out@.len() == i,
                forall|j: int| 0 <= j < i ==> (#[trigger] out@[j]).0@ == self.assets.entries()[j].0
                    && out@[j].1 == self.assets.entries()[j].1,
            decreases self.assets.entries().len() - i,
        {
            let (k, v) = self.assets.entry_at(i);
            out.push((AssetId::new(k), *v));
            i = i + 1;
        }
        out
    }

    fn positions(m: &IdMap<Amount>) -> (r: Vec<(VaultId, Amount)>)
        ensures
            r@.len() == m.entries().len(),
            forall|i: int| 0 <= i < r@.len() ==> (#[trigger] r@[i]).0@ == m.entries()[i].0
                && r@[i].1 == m.entries()[i].1,
    {
        let mut out: Vec<(VaultId, Amount)> = Vec::new();
        let mut i: usize = 0;
        while i < m.len()
            invariant
                i <= m.entries().len(),
                out@.len() == i,
                forall|j: int| 0 <= j < i ==> (#[trigger] out@[j]).0@ == m.entries()[j].0
                    && out@[j].1 == m.entries()[j].1,
            decreases m.entries().len() - i,
        {
            let (k, v) = m.entry_at(i);
            out.push((VaultId::new(k), *v));
            i = i + 1;
        }
        out
    }
}

impl Default for Portfolio {
    fn default() -> (r: Self)
        ensures
            r.wf(),
            r.shares_view() == Map::<u64, Amount>::empty(),
            r.assets_view() == Map::<u64, Amount>::empty(),
            r.pending_view() == Map::<u64, Amount>::empty(),
    {
        Portfolio::new()
    }
}

/// A registered holder of shares and assets.
#[derive(Debug, Clone)]
pub struct Account {
    id: AccountId,
    label: String,
    tier: AccountTier,
    portfolio: Portfolio,
}

impl Account {
    pub closed spec fn spec_id(&self) -> AccountId {
        self.id
    }

    pub closed spec fn spec_label(&self) -> Seq<char> {
        self.label@
    }

    pub closed spec fn spec_tier(&self) -> AccountTier {
        self.tier
    }

    pub closed spec fn spec_portfolio(&self) -> Portfolio {
        self.portfolio
    }

    pub open spec fn wf(&self) -> bool {
        self.spec_portfolio().wf()
    }

    /// Fails with `InvalidPolicy` exactly when the label is blank.
    pub fn new(id: AccountId, label: &str, tier: AccountTier) -> (r: CrownResult<Self>)
        ensures
            blank(label@) ==> (r matches Err(e) && e is InvalidPolicy && e.spec_detail()
                == "account label is empty"@),
            !blank(label@) ==> (r matches Ok(a) && a.wf() && a.spec_id() == id && a.spec_label()
                == label@ && a.spec_tier() == tier && a.spec_portfolio().shares_view() == Map::<
                u64,
                Amount,
            >::empty() && a.spec_portfolio().assets_view() == Map::<u64, Amount>::empty()
                && a.spec_portfolio().pending_view() == Map::<u64, Amount>::empty()),
    {
        if is_blank(label) {
            return Err(CrownError::InvalidPolicy(String::from_str("account label is empty")));
        }
        Ok(Account { id, label: String::from_str(label), tier, portfolio: Portfolio::new() })
    }

    pub fn id(&self) -> (r: AccountId)
        ensures
            r == self.spec_id(),
    {
        self.id
    }

    pub fn label(&self) -> (r: &str)
        ensures
            r@ == self.spec_label(),
    {
        self.label.as_str()
    }

    pub fn tier(&self) -> (r: AccountTier)
        ensures
            r == self.spec_tier(),
    {
        self.tier
    }

    pub fn portfolio(&self) -> (r: &Portfolio)
        ensures
            *r == self.spec_portfolio(),
    {
        &self.portfolio
    }

    pub fn portfolio_mut(&mut self) -> (r: &mut Portfolio)
        ensures
            *r == old(self).spec_portfolio(),
            final(self).spec_portfolio() == *final(r),
            final(self).spec_id() == old(self).spec_id(),
            final(self).spec_label() == old(self).spec_label(),
            final(self).spec_tier() == old(self).spec_tier(),
    {
        &mut self.portfolio
    }
}

/// Accounts are filed under their identifiers, are well formed and have
/// distinct labels up to ASCII case.
pub open spec fn entries_ok(s: Seq<(u64, Account)>) -> bool {
    &&& forall|i: int| 0 <= i < s.len() ==> (#[trigger] s[i]).1.spec_id()@ == s[i].0 && s[i].1.wf()
    &&& forall|i: int, j: int| 0 <= i < j < s.len() ==> lower((#[trigger] s[i]).1.spec_label()) != lower((#[trigger] s[j]).1.spec_label())
}

/// All accounts, by identifier. No two accounts share a label up to ASCII
/// case.
#[derive(Debug, Clone)]
pub struct AccountRegistry {
    accounts: IdMap<Account>,
}

impl AccountRegistry {
    /// Accounts by account number.
    pub closed spec fn spec_accounts(&self) -> Map<u64, Account> {
        self.accounts.view()
    }

    /// Accounts in increasing identifier order.
    pub closed spec fn spec_entries(&self) -> Seq<(u64, Account)> {
        self.accounts.entries()
    }

    pub closed spec fn wf(&self) -> bool {
        &&& self.accounts.wf()
        &&& entries_ok(self.accounts.entries())
    }

    /// The position of account number `k` among the entries.
    pub closed spec fn position_of(&self, k: u64) -> int {
        self.accounts.index_of(k)
    }

    /// The entry at an account's position is that account.
    pub proof fn lemma_wf_entry(&self, p: int)
        requires
            self.wf(),
            0 <= p < self.spec_entries().len(),
        ensures
            self.spec_accounts().contains_key(self.spec_entries()[p].0),
            self.spec_accounts()[self.spec_entries()[p].0] == self.spec_entries()[p].1,
    {
        self.accounts.lemma_entry(p);
    }

    /// The accounts are what the entries describe.
    pub proof fn lemma_view_entries(&self)
        ensures
            self.spec_accounts() == crate::idmap::entries_map(self.spec_entries()),
    {
    }

    /// The entries of a well-formed registry have increasing keys.
    pub proof fn lemma_sorted(&self)
        requires
            self.wf(),
        ensures
            crate::idmap::sorted_keys(self.spec_entries()),
    {
    }

    /// An account of the registry stands at its position.
    pub proof fn lemma_key(&self, k: u64)
        requires
            self.wf(),
            self.spec_accounts().contains_key(k),
        ensures
            0 <= self.position_of(k) < self.spec_entries().len(),
            self.spec_entries()[self.position_of(k)].0 == k,
            self.spec_entries()[self.position_of(k)].1 == self.spec_accounts()[k],
    {
        let i = self.accounts.lemma_key(k);
        self.accounts.lemma_index_of(i);
        self.accounts.lemma_entry(i);
    }

    /// An account's position is where its entry stands.
    pub proof fn lemma_position(&self, i: int)
        requires
            self.wf(),
            0 <= i < self.spec_entries().len(),
        ensures
            self.position_of(self.spec_entries()[i].0) == i,
    {
        self.accounts.lemma_index_of(i);
    }

    /// Some account's label equals `label` up to ASCII case.
    pub open spec fn has_label(&self, label: Seq<char>) -> bool {
        exists|i: int|
            0 <= i < self.spec_entries().len() && lower((#[trigger] self.spec_entries()[i]).1.spec_label())
                == lower(label)
    }

    pub proof fn lemma_wf(&self)
        requires
            self.wf(),
        ensures
            forall|k: u64| #[trigger]
                self.spec_accounts().contains_key(k) ==> self.spec_accounts()[k].spec_id()@ == k
                    && self.spec_accounts()[k].wf(),
            forall|i: int|
                0 <= i < self.spec_entries().len() ==> self.spec_accounts().contains_key(
                    (#[trigger] self.spec_entries()[i]).0,
                ) && self.spec_accounts()[self.spec_entries()[i].0] == self.spec_entries()[i].1,
    {
        assert forall|k: u64| #[trigger] self.spec_accounts().contains_key(k) implies self.spec_accounts()[k].spec_id()@ == k
            && self.spec_accounts()[k].wf() by {
            let i = self.accounts.lemma_key(k);
        }
        assert forall|i: int| 0 <= i < self.spec_entries().len() implies self.spec_accounts().contains_key(
            (#[trigger] self.spec_entries()[i]).0,
        ) && self.spec_accounts()[self.spec_entries()[i].0] == self.spec_entries()[i].1 by {
            self.accounts.lemma_entry(i);
        }
    }

    pub fn new() -> (r: Self)
        ensures
            r.wf(),
            r.spec_accounts() == Map::<u64, Account>::empty(),
            r.spec_entries().len() == 0,
    {
        AccountRegistry { accounts: IdMap::new() }
    }

    /// Adds the account; fails with `DuplicateAccount` when its identifier or
    /// (case-insensitively) its label is taken.
    pub fn insert(&mut self, account: Account) -> (r: CrownResult<()>)
        requires
            old(self).wf(),
            account.wf(),
        ensures
            final(self).wf(),
            old(self).spec_accounts().contains_key(account.spec_id()@) ==> (r matches Err(e)
                && e is DuplicateAccount && e.spec_detail() == "acct-"@ + decimal(account.spec_id()@ as nat)
                && *final(self) == *old(self)),
            !old(self).spec_accounts().contains_key(account.spec_id()@) && old(self).has_label(
                account.spec_label(),
            ) ==> (r matches Err(e) && e is DuplicateAccount && e.spec_detail() == account.spec_label()
                && *final(self) == *old(self)),
            !old(self).spec_accounts().contains_key(account.spec_id()@) && !old(self).has_label(
                account.spec_label(),
            ) ==> (r is Ok && final(self).spec_accounts() == old(self).spec_accounts().insert(
                account.spec_id()@,
                account,
            ) && exists|p: int| 0 <= p <= old(self).spec_entries().len() && final(self).spec_entries()
                == old(self).spec_entries().insert(p, (account.spec_id()@, account))),
    {
        let id = account.id();
        if self.accounts.contains_key(id.raw()) {
            return Err(CrownError::DuplicateAccount(id.label()));
        }
        let key = to_lower(account.label());
        let n = self.accounts.len();
        let mut i: usize = 0;
        while i < n
            invariant
                self.wf(),
                n == self.spec_entries().len(),
                key@ == lower(account.spec_label()),
                !self.spec_accounts().contains_key(account.spec_id()@),
                i <= n,
                forall|j: int| 0 <= j < i ==> lower((#[trigger] self.spec_entries()[j]).1.spec_label()) != key@,
            decreases n - i,
        {
            let (_, existing) = self.accounts.entry_at(i);
            let other = to_lower(existing.label());
            if crate::text::str_eq(other.as_str(), key.as_str()) {
                return Err(CrownError::DuplicateAccount(String::from_str(account.label())));
            }
            i = i + 1;
        }
        proof {
            assert forall|j: int| 0 <= j < self.spec_entries().len() implies lower((#[trigger] self.spec_entries()[j]).1.spec_label()) != lower(account.spec_label()) by {}
        }
        let ghost old_entries = self.accounts.entries();
        self.accounts.insert(id.raw(), account);
        proof {
            let p = choose|p: int| 0 <= p <= old_entries.len() && self.accounts.entries() == old_entries.insert(p, (id@, account));
            let s = self.accounts.entries();
            assert(self.spec_entries() == old(self).spec_entries().insert(p, (account.spec_id()@, account)));
            assert forall|a: int| 0 <= a < s.len() implies (#[trigger] s[a]).1.spec_id()@ == s[a].0 && s[a].1.wf() by {
                if a < p { assert(s[a] == old_entries[a]); } else if a > p { assert(s[a] == old_entries[a - 1]); }
            }
            assert forall|a: int, b: int| 0 <= a < b < s.len() implies lower((#[trigger] s[a]).1.spec_label()) != lower((#[trigger] s[b]).1.spec_label()) by {
                if b < p {
                    assert(s[a] == old_entries[a] && s[b] == old_entries[b]);
                } else if b == p {
                    assert(s[a] == old_entries[a]);
                } else if a < p {
                    assert(s[a] == old_entries[a] && s[b] == old_entries[b - 1]);
                } else if a == p {
                    assert(s[b] == old_entries[b - 1]);
                } else {
                    assert(s[a] == old_entries[a - 1] && s[b] == old_entries[b - 1]);
                }
            }
        }
        Ok(())
    }

    /// Fails with `MissingAccount` when no account has the identifier.
    pub fn get(&self, id: AccountId) -> (r: CrownResult<&Account>)
        requires
            self.wf(),
        ensures
            self.spec_accounts().contains_key(id@) ==> (r matches Ok(a) && *a == self.spec_accounts()[id@]),
            !self.spec_accounts().contains_key(id@) ==> (r matches Err(e) && e is MissingAccount
                && e.spec_detail() == "acct-"@ + decimal(id@ as nat)),
    {
        match self.accounts.get(id.raw()) {
            Some(a) => Ok(a),
            None => Err(CrownError::MissingAccount(id.label())),
        }
    }

    /// Mutable access to an account; its identifier and label stay fixed.
    pub fn get_mut(&mut self, id: AccountId) -> (r: CrownResult<&mut Account>)
        requires
            old(self).wf(),
        ensures
            old(self).spec_accounts().contains_key(id@) ==> (r matches Ok(a) && *a
                == old(self).spec_accounts()[id@]),
            r matches Ok(a) ==> (final(a).spec_id() == a.spec_id() && final(a).spec_label() == a.spec_label()
                && final(a).wf() ==> final(self).wf()),
            r matches Ok(a) ==> final(self).spec_accounts() == old(self).spec_accounts().insert(id@, *final(a)),
            r matches Ok(a) ==> 0 <= old(self).position_of(id@) < old(self).spec_entries().len()
                && old(self).spec_entries()[old(self).position_of(id@)] == (id@, *a)
                && final(self).spec_entries() == old(self).spec_entries().update(old(self).position_of(id@), (id@, *final(a))),
            !old(self).spec_accounts().contains_key(id@) ==> (r matches Err(e) && e is MissingAccount
                && e.spec_detail() == "acct-"@ + decimal(id@ as nat) && final(self).wf() && final(self).spec_entries() == old(self).spec_entries()
                && final(self).spec_accounts() == old(self).spec_accounts()),
    {
        proof {
            if self.accounts.view().contains_key(id@) {
                let i = self.accounts.lemma_key(id@);
                let s = self.accounts.entries();
                self.accounts.lemma_index_of(i);
                assert forall|e: (u64, Account)| #![trigger s.update(i, e)] s[i].0 == e.0 && e.1.spec_id() == s[i].1.spec_id() && e.1.spec_label() == s[i].1.spec_label() && e.1.wf()
                    implies entries_ok(s.update(i, e)) by {
                    let j = i;
                    let t = s.update(j, e);
                    assert forall|x: int, y: int| 0 <= x < y < t.len() implies lower((#[trigger] t[x]).1.spec_label()) != lower((#[trigger] t[y]).1.spec_label()) by {
                        assert(lower(s[x].1.spec_label()) != lower(s[y].1.spec_label()));
                    }
                }
            }
        }
        match self.accounts.get_mut(id.raw()) {
            Some(a) => Ok(a),
            None => Err(CrownError::MissingAccount(id.label())),
        }
    }

    /// The account whose label equals `label` up to ASCII case; fails with
    /// `MissingAccount` when there is none.
    pub fn by_label(&self, label: &str) -> (r: CrownResult<AccountId>)
        requires
            self.wf(),
        ensures
            self.has_label(label@) ==> (r matches Ok(id) && self.spec_accounts().contains_key(id@)
                && lower(self.spec_accounts()[id@].spec_label()) == lower(label@)),
            !self.has_label(label@) ==> (r matches Err(e) && e is MissingAccount && e.spec_detail()
                == label@),
    {
        let key = to_lower(label);
        let n = self.accounts.len();
        let mut i: usize = 0;
        while i < n
            invariant
                self.wf(),
                n == self.spec_entries().len(),
                key@ == lower(label@),
                i <= n,
                forall|j: int| 0 <= j < i ==> lower((#[trigger] self.spec_entries()[j]).1.spec_label()) != key@,
            decreases n - i,
        {
            let (k, existing) = self.accounts.entry_at(i);
            let other = to_lower(existing.label());
            if crate::text::str_eq(other.as_str(), key.as_str()) {
                proof { self.accounts.lemma_entry(i as int); }
                return Ok(existing.id());
            }
            i = i + 1;
        }
        Err(CrownError::MissingAccount(String::from_str(label)))
    }

    /// All accounts in increasing identifier order.
    pub fn all(&self) -> (r: Vec<&Account>)
        requires
            self.wf(),
        ensures
            r@.len() == self.spec_entries().len(),
            forall|i: int| 0 <= i < r@.len() ==> *(#[trigger] r@[i]) == self.spec_entries()[i].1,
    {
        let mut out: Vec<&Account> = Vec::new();
        let mut i: usize = 0;
        while i < self.accounts.len()
            invariant
                i <= self.spec_entries().len(),
                out@.len() == i,
                forall|j: int| 0 <= j < i ==> *(#[trigger] out@[j]) == self.spec_entries()[j].1,
            decreases self.spec_entries().len() - i,
        {
            let (_, a) = self.accounts.entry_at(i);
            out.push(a);
            i = i + 1;
        }
        out
    }

    pub fn len(&self) -> (r: usize)
        ensures
            r == self.spec_entries().len(),
    {
        self.accounts.len()
    }

    pub fn is_empty(&self) -> (r: bool)
        ensures
            r == (self.spec_entries().len() == 0),
    {
        self.accounts.len() == 0
    }
}

impl Default for AccountRegistry {
    fn default() -> (r: Self)
        ensures
            r.wf(),
            r.spec_accounts() == Map::<u64, Account>::empty(),
            r.spec_entries().len() == 0,
    {
        AccountRegistry::new()
    }
}

} // verus!
