use vstd::prelude::*;
use crate::text::{decimal, decimal_string};

verus! {
/// Identifier of a account, shown as `acct-<n>`.
#[derive(Debug, Clone, Copy, PartialEq, Eq, Structural, PartialOrd, Ord, Hash)]
pub struct AccountId(u64);

impl View for AccountId {
    type V = u64;

    closed spec fn view(&self) -> u64 {
        self.0
    }
}

impl AccountId {
    pub closed spec fn spec_new(value: u64) -> Self {
        AccountId(value)
    }

    /// The identifier is determined by its number.
    pub proof fn lemma_view(a: Self, b: Self, v: u64)
        ensures
            a@ == b@ ==> a == b,
            #[trigger] Self::spec_new(v)@ == v,
    {
    }

    pub fn new(value: u64) -> (r: Self)
        ensures
            r@ == value,
            r == Self::spec_new(value),
    {
        AccountId(value)
    }

    pub fn raw(self) -> (r: u64)
        ensures
            r == self@,
    {
        self.0
    }

    pub fn is_zero(self) -> (r: bool)
        ensures
            r == (self@ == 0),
    {
        self.0 == 0
    }

    pub fn next_after(self) -> (r: Self)
        requires
            self@ < u64::MAX,
        ensures
            r@ == self@ + 1,
    {
        AccountId(self.0 + 1)
    }

    /// The display text `acct-<n>`.
    pub fn label(self) -> (r: String)
        ensures
            r@ == "acct-"@ + decimal(self@ as nat),
    {
        String::from_str("acct-").concat(decimal_string(self.0 as u128).as_str())
    }
}

impl From<u64> for AccountId {
    fn from(value: u64) -> (r: Self) {
        AccountId(value)
    }
}

impl vstd::std_specs::convert::FromSpecImpl<u64> for AccountId {
    open spec fn obeys_from_spec() -> bool {
        true
    }

    open spec fn from_spec(v: u64) -> Self {
        Self::spec_new(v)
    }
}

/// Identifier of a asset, shown as `asset-<n>`.
#[derive(Debug, Clone, Copy, PartialEq, Eq, Structural, PartialOrd, Ord, Hash)]
pub struct AssetId(u64);

impl View for AssetId {
    type V = u64;

    closed spec fn view(&self) -> u64 {
        self.0
    }
}

impl AssetId {
    pub closed spec fn spec_new(value: u64) -> Self {
        AssetId(value)
    }

    /// The identifier is determined by its number.
    pub proof fn lemma_view(a: Self, b: Self, v: u64)
        ensures
            a@ == b@ ==> a == b,
            #[trigger] Self::spec_new(v)@ == v,
    {
    }

    pub fn new(value: u64) -> (r: Self)
        ensures
            r@ == value,
            r == Self::spec_new(value),
    {
        AssetId(value)
    }

    pub fn raw(self) -> (r: u64)
        ensures
            r == self@,
    {
        self.0
    }

    pub fn is_zero(self) -> (r: bool)
        ensures
            r == (self@ == 0),
    {
        self.0 == 0
    }

    pub fn next_after(self) -> (r: Self)
        requires
            self@ < u64::MAX,
        ensures
            r@ == self@ + 1,
    {
        AssetId(self.0 + 1)
    }

    /// The display text `asset-<n>`.
    pub fn label(self) -> (r: String)
        ensures
            r@ == "asset-"@ + decimal(self@ as nat),
    {
        String::from_str("asset-").concat(decimal_string(self.0 as u128).as_str())
    }
}

impl From<u64> for AssetId {
    fn from(value: u64) -> (r: Self) {
        AssetId(value)
    }
}

impl vstd::std_specs::convert::FromSpecImpl<u64> for AssetId {
    open spec fn obeys_from_spec() -> bool {
        true
    }

    open spec fn from_spec(v: u64) -> Self {
        Self::spec_new(v)
    }
}

/// Identifier of a vault, shown as `vault-<n>`.
#[derive(Debug, Clone, Copy, PartialEq, Eq, Structural, PartialOrd, Ord, Hash)]
pub struct VaultId(u64);

impl View for VaultId {
    type V = u64;

    closed spec fn view(&self) -> u64 {
        self.0
    }
}

impl VaultId {
    pub closed spec fn spec_new(value: u64) -> Self {
        VaultId(value)
    }

    /// The identifier is determined by its number.
    pub proof fn lemma_view(a: Self, b: Self, v: u64)
        ensures
            a@ == b@ ==> a == b,
            #[trigger] Self::spec_new(v)@ == v,
    {
    }

    pub fn new(value: u64) -> (r: Self)
        ensures
            r@ == value,
            r == Self::spec_new(value),
    {
        VaultId(value)
    }

    pub fn raw(self) -> (r: u64)
        ensures
            r == self@,
    {
        self.0
    }

    pub fn is_zero(self) -> (r: bool)
        ensures
            r == (self@ == 0),
    {
        self.0 == 0
    }

    pub fn next_after(self) -> (r: Self)
        requires
            self@ < u64::MAX,
        ensures
            r@ == self@ + 1,
    {
        VaultId(self.0 + 1)
    }

    /// The display text `vault-<n>`.
    pub fn label(self) -> (r: String)
        ensures
            r@ == "vault-"@ + decimal(self@ as nat),
    {
        String::from_str("vault-").concat(decimal_string(self.0 as u128).as_str())
    }
}

impl From<u64> for VaultId {
    fn from(value: u64) -> (r: Self) {
        VaultId(value)
    }
}

impl vstd::std_specs::convert::FromSpecImpl<u64> for VaultId {
    open spec fn obeys_from_spec() -> bool {
        true
    }

    open spec fn from_spec(v: u64) -> Self {
        Self::spec_new(v)
    }
}

/// Identifier of a redemption, shown as `rdm-<n>`.
#[derive(Debug, Clone, Copy, PartialEq, Eq, Structural, PartialOrd, Ord, Hash)]
pub struct RedemptionId(u64);

impl View for RedemptionId {
    type V = u64;

    closed spec fn view(&self) -> u64 {
        self.0
    }
}

impl RedemptionId {
    pub closed spec fn spec_new(value: u64) -> Self {
        RedemptionId(value)
    }

    /// The identifier is determined by its number.
    pub proof fn lemma_view(a: Self, b: Self, v: u64)
        ensures
            a@ == b@ ==> a == b,
            #[trigger] Self::spec_new(v)@ == v,
    {
    }

    pub fn new(value: u64) -> (r: Self)
        ensures
            r@ == value,
            r == Self::spec_new(value),
    {
        RedemptionId(value)
    }

    pub fn raw(self) -> (r: u64)
        ensures
            r == self@,
    {
        self.0
    }

    pub fn is_zero(self) -> (r: bool)
        ensures
            r == (self@ == 0),
    {
        self.0 == 0
    }

    pub fn next_after(self) -> (r: Self)
        requires
            self@ < u64::MAX,
        ensures
            r@ == self@ + 1,
    {
        RedemptionId(self.0 + 1)
    }

    /// The display text `rdm-<n>`.
    pub fn label(self) -> (r: String)
        ensures
            r@ == "rdm-"@ + decimal(self@ as nat),
    {
        String::from_str("rdm-").concat(decimal_string(self.0 as u128).as_str())
    }
}

impl From<u64> for RedemptionId {
    fn from(value: u64) -> (r: Self) {
        RedemptionId(value)
    }
}

impl vstd::std_specs::convert::FromSpecImpl<u64> for RedemptionId {
    open spec fn obeys_from_spec() -> bool {
        true
    }

    open spec fn from_spec(v: u64) -> Self {
        Self::spec_new(v)
    }
}

/// Identifier of a window, shown as `win-<n>`.
#[derive(Debug, Clone, Copy, PartialEq, Eq, Structural, PartialOrd, Ord, Hash)]
pub struct WindowId(u64);

impl View for WindowId {
    type V = u64;

    closed spec fn view(&self) -> u64 {
        self.0
    }
}

impl WindowId {
    pub closed spec fn spec_new(value: u64) -> Self {
        WindowId(value)
    }

    /// The identifier is determined by its number.
    pub proof fn lemma_view(a: Self, b: Self, v: u64)
        ensures
            a@ == b@ ==> a == b,
            #[trigger] Self::spec_new(v)@ == v,
    {
    }

    pub fn new(value: u64) -> (r: Self)
        ensures
            r@ == value,
            r == Self::spec_new(value),
    {
        WindowId(value)
    }

    pub fn raw(self) -> (r: u64)
        ensures
            r == self@,
    {
        self.0
    }

    pub fn is_zero(self) -> (r: bool)
        ensures
            r == (self@ == 0),
    {
        self.0 == 0
    }

    pub fn next_after(self) -> (r: Self)
        requires
            self@ < u64::MAX,
        ensures
            r@ == self@ + 1,
    {
        WindowId(self.0 + 1)
    }

    /// The display text `win-<n>`.
    pub fn label(self) -> (r: String)
        ensures
            r@ == "win-"@ + decimal(self@ as nat),
    {
        String::from_str("win-").concat(decimal_string(self.0 as u128).as_str())
    }
}

impl From<u64> for WindowId {
    fn from(value: u64) -> (r: Self) {
        WindowId(value)
    }
}

impl vstd::std_specs::convert::FromSpecImpl<u64> for WindowId {
    open spec fn obeys_from_spec() -> bool {
        true
    }

    open spec fn from_spec(v: u64) -> Self {
        Self::spec_new(v)
    }
}

/// Identifier of a journal, shown as `jrn-<n>`.
#[derive(Debug, Clone, Copy, PartialEq, Eq, Structural, PartialOrd, Ord, Hash)]
pub struct JournalId(u64);

impl View for JournalId {
    type V = u64;

    closed spec fn view(&self) -> u64 {
        self.0
    }
}

impl JournalId {
    pub closed spec fn spec_new(value: u64) -> Self {
        JournalId(value)
    }

    /// The identifier is determined by its number.
    pub proof fn lemma_view(a: Self, b: Self, v: u64)
        ensures
            a@ == b@ ==> a == b,
            #[trigger] Self::spec_new(v)@ == v,
    {
    }

    pub fn new(value: u64) -> (r: Self)
        ensures
            r@ == value,
            r == Self::spec_new(value),
    {
        JournalId(value)
    }

    pub fn raw(self) -> (r: u64)
        ensures
            r == self@,
    {
        self.0
    }

    pub fn is_zero(self) -> (r: bool)
        ensures
            r == (self@ == 0),
    {
        self.0 == 0
    }

    pub fn next_after(self) -> (r: Self)
        requires
            self@ < u64::MAX,
        ensures
            r@ == self@ + 1,
    {
        JournalId(self.0 + 1)
    }

    /// The display text `jrn-<n>`.
    pub fn label(self) -> (r: String)
        ensures
            r@ == "jrn-"@ + decimal(self@ as nat),
    {
        String::from_str("jrn-").concat(decimal_string(self.0 as u128).as_str())
    }
}

impl From<u64> for JournalId {
    fn from(value: u64) -> (r: Self) {
        JournalId(value)
    }
}

impl vstd::std_specs::convert::FromSpecImpl<u64> for JournalId {
    open spec fn obeys_from_spec() -> bool {
        true
    }

    open spec fn from_spec(v: u64) -> Self {
        Self::spec_new(v)
    }
}

/// Identifier of a route, shown as `route-<n>`.
#[derive(Debug, Clone, Copy, PartialEq, Eq, Structural, PartialOrd, Ord, Hash)]
pub struct RouteId(u64);

impl View for RouteId {
    type V = u64;

    closed spec fn view(&self) -> u64 {
        self.0
    }
}

impl RouteId {
    pub closed spec fn spec_new(value: u64) -> Self {
        RouteId(value)
    }

    /// The identifier is determined by its number.
    pub proof fn lemma_view(a: Self, b: Self, v: u64)
        ensures
            a@ == b@ ==> a == b,
            #[trigger] Self::spec_new(v)@ == v,
    {
    }

    pub fn new(value: u64) -> (r: Self)
        ensures
            r@ == value,
            r == Self::spec_new(value),
    {
        RouteId(value)
    }

    pub fn raw(self) -> (r: u64)
        ensures
            r == self@,
    {
        self.0
    }

    pub fn is_zero(self) -> (r: bool)
        ensures
            r == (self@ == 0),
    {
        self.0 == 0
    }

    pub fn next_after(self) -> (r: Self)
        requires
            self@ < u64::MAX,
        ensures
            r@ == self@ + 1,
    {
        RouteId(self.0 + 1)
    }

    /// The display text `route-<n>`.
    pub fn label(self) -> (r: String)
        ensures
            r@ == "route-"@ + decimal(self@ as nat),
    {
        String::from_str("route-").concat(decimal_string(self.0 as u128).as_str())
    }
}

impl From<u64> for RouteId {
    fn from(value: u64) -> (r: Self) {
        RouteId(value)
    }
}

impl vstd::std_specs::convert::FromSpecImpl<u64> for RouteId {
    open spec fn obeys_from_spec() -> bool {
        true
    }

    open spec fn from_spec(v: u64) -> Self {
        Self::spec_new(v)
    }
}

/// A monotone counter used to allocate identifiers.
#[derive(Debug, Clone, Copy, PartialEq, Eq, Structural, PartialOrd, Ord, Hash)]
pub struct Sequence(u64);

impl View for Sequence {
    type V = u64;

    closed spec fn view(&self) -> u64 {
        self.0
    }
}

impl Sequence {
    pub fn new(value: u64) -> (r: Self)
        ensures
            r@ == value,
    {
        Sequence(value)
    }

    pub fn raw(self) -> (r: u64)
        ensures
            r == self@,
    {
        self.0
    }

    /// Advances the counter and returns its new value.
    pub fn bump(&mut self) -> (r: u64)
        requires
            old(self)@ < u64::MAX,
        ensures
            final(self)@ == old(self)@ + 1,
            r == final(self)@,
    {
        self.0 = self.0 + 1;
        self.0
    }

    pub fn peek_next(self) -> (r: u64)
        requires
            self@ < u64::MAX,
        ensures
            r == self@ + 1,
    {
        self.0 + 1
    }
}

impl Default for Sequence {
    fn default() -> (r: Self)
        ensures
            r@ == 0,
    {
        Sequence(0)
    }
}

/// Hands out fresh identifiers of each kind, counting up from 1.
#[derive(Debug, Clone)]
pub struct IdAllocator {
    next_account: Sequence,
    next_asset: Sequence,
    next_vault: Sequence,
    next_redemption: Sequence,
    next_window: Sequence,
    next_journal: Sequence,
    next_route: Sequence,
}

impl IdAllocator {
    /// The last account number handed out (0 before the first).
    pub closed spec fn last_account(&self) -> u64 {
        self.next_account@
    }

    /// The last asset number handed out (0 before the first).
    pub closed spec fn last_asset(&self) -> u64 {
        self.next_asset@
    }

    /// The last vault number handed out (0 before the first).
    pub closed spec fn last_vault(&self) -> u64 {
        self.next_vault@
    }

    /// The last redemption number handed out (0 before the first).
    pub closed spec fn last_redemption(&self) -> u64 {
        self.next_redemption@
    }

    /// The last window number handed out (0 before the first).
    pub closed spec fn last_window(&self) -> u64 {
        self.next_window@
    }

    /// The last journal number handed out (0 before the first).
    pub closed spec fn last_journal(&self) -> u64 {
        self.next_journal@
    }

    /// The last route number handed out (0 before the first).
    pub closed spec fn last_route(&self) -> u64 {
        self.next_route@
    }

    /// Every counter other than the named ones is unchanged.
    pub open spec fn same_except(&self, other: &Self, changed: Seq<char>) -> bool {
        &&& changed != "account"@ ==> self.last_account() == other.last_account()
        &&& changed != "asset"@ ==> self.last_asset() == other.last_asset()
        &&& changed != "vault"@ ==> self.last_vault() == other.last_vault()
        &&& changed != "redemption"@ ==> self.last_redemption() == other.last_redemption()
        &&& changed != "window"@ ==> self.last_window() == other.last_window()
        &&& changed != "journal"@ ==> self.last_journal() == other.last_journal()
        &&& changed != "route"@ ==> self.last_route() == other.last_route()
    }

    /// Allocates the next account identifier.
    pub fn account(&mut self) -> (r: AccountId)
        requires
            old(self).last_account() < u64::MAX,
        ensures
            final(self).last_account() == old(self).last_account() + 1,
            r@ == final(self).last_account(),
            final(self).same_except(old(self), "account"@),
    {
        AccountId::new(self.next_account.bump())
    }

    /// Allocates the next asset identifier.
    pub fn asset(&mut self) -> (r: AssetId)
        requires
            old(self).last_asset() < u64::MAX,
        ensures
            final(self).last_asset() == old(self).last_asset() + 1,
            r@ == final(self).last_asset(),
            final(self).same_except(old(self), "asset"@),
    {
        AssetId::new(self.next_asset.bump())
    }

    /// Allocates the next vault identifier.
    pub fn vault(&mut self) -> (r: VaultId)
        requires
            old(self).last_vault() < u64::MAX,
        ensures
            final(self).last_vault() == old(self).last_vault() + 1,
            r@ == final(self).last_vault(),
            final(self).same_except(old(self), "vault"@),
    {
        VaultId::new(self.next_vault.bump())
    }

    /// Allocates the next redemption identifier.
    pub fn redemption(&mut self) -> (r: RedemptionId)
        requires
            old(self).last_redemption() < u64::MAX,
        ensures
            final(self).last_redemption() == old(self).last_redemption() + 1,
            r@ == final(self).last_redemption(),
            final(self).same_except(old(self), "redemption"@),
    {
        RedemptionId::new(self.next_redemption.bump())
    }

    /// Allocates the next window identifier.
    pub fn window(&mut self) -> (r: WindowId)
        requires
            old(self).last_window() < u64::MAX,
        ensures
            final(self).last_window() == old(self).last_window() + 1,
            r@ == final(self).last_window(),
            final(self).same_except(old(self), "window"@),
    {
        WindowId::new(self.next_window.bump())
    }

    /// Allocates the next journal identifier.
    pub fn journal(&mut self) -> (r: JournalId)
        requires
            old(self).last_journal() < u64::MAX,
        ensures
            final(self).last_journal() == old(self).last_journal() + 1,
            r@ == final(self).last_journal(),
            final(self).same_except(old(self), "journal"@),
    {
        JournalId::new(self.next_journal.bump())
    }

    /// Allocates the next route identifier.
    pub fn route(&mut self) -> (r: RouteId)
        requires
            old(self).last_route() < u64::MAX,
        ensures
            final(self).last_route() == old(self).last_route() + 1,
            r@ == final(self).last_route(),
            final(self).same_except(old(self), "route"@),
    {
        RouteId::new(self.next_route.bump())
    }

    /// Makes sure later account identifiers are allocated above `id`.
    pub fn reserve_account(&mut self, id: AccountId)
        ensures
            final(self).last_account() == if id@ > old(self).last_account() { id@ } else { old(self).last_account() },
            final(self).same_except(old(self), "account"@),
    {
        if id.raw() > self.next_account.raw() {
            self.next_account = Sequence::new(id.raw());
        }
    }

    /// Makes sure later asset identifiers are allocated above `id`.
    pub fn reserve_asset(&mut self, id: AssetId)
        ensures
            final(self).last_asset() == if id@ > old(self).last_asset() { id@ } else { old(self).last_asset() },
            final(self).same_except(old(self), "asset"@),
    {
        if id.raw() > self.next_asset.raw() {
            self.next_asset = Sequence::new(id.raw());
        }
    }

    /// Makes sure later vault identifiers are allocated above `id`.
    pub fn reserve_vault(&mut self, id: VaultId)
        ensures
            final(self).last_vault() == if id@ > old(self).last_vault() { id@ } else { old(self).last_vault() },
            final(self).same_except(old(self), "vault"@),
    {
        if id.raw() > self.next_vault.raw() {
            self.next_vault = Sequence::new(id.raw());
        }
    }

    /// Makes sure later redemption identifiers are allocated above `id`.
    pub fn reserve_redemption(&mut self, id: RedemptionId)
        ensures
            final(self).last_redemption() == if id@ > old(self).last_redemption() { id@ } else { old(self).last_redemption() },
            final(self).same_except(old(self), "redemption"@),
    {
        if id.raw() > self.next_redemption.raw() {
            self.next_redemption = Sequence::new(id.raw());
        }
    }

}

impl Default for IdAllocator {
    fn default() -> (r: Self)
        ensures
            r.last_account() == 0,
            r.last_asset() == 0,
            r.last_vault() == 0,
            r.last_redemption() == 0,
            r.last_window() == 0,
            r.last_journal() == 0,
            r.last_route() == 0,
    {
        IdAllocator {
            next_account: Sequence::new(0),
            next_asset: Sequence::new(0),
            next_vault: Sequence::new(0),
            next_redemption: Sequence::new(0),
            next_window: Sequence::new(0),
            next_journal: Sequence::new(0),
            next_route: Sequence::new(0),
        }
    }
}

} // verus!
