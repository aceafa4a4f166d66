use vstd::prelude::*;
use crate::amount::{amount_max, Amount, Rate};
use crate::clock::{EpochDay, UnlockWindow};
use crate::error::{CrownError, CrownResult};
use crate::idmap::{IdMap, lemma_sum_ge_entry, lemma_sum_insert, lemma_sum_update, sum_by};
use crate::ids::{AccountId, AssetId, RedemptionId, VaultId, WindowId};
use crate::policy::RedemptionPolicy;
use crate::queue::Lane;
use crate::text::{blank, decimal, is_blank};

verus! {

broadcast use crate::amount::group_amount;

#[derive(Debug, Clone, Copy, PartialEq, Eq, Structural)]
pub enum RedemptionKind {
    Priority,
    Standard,
}

impl RedemptionKind {
    pub open spec fn spec_lane(self) -> Lane {
        match self {
            RedemptionKind::Priority => Lane::Priority,
            RedemptionKind::Standard => Lane::Standard,
        }
    }

    pub open spec fn spec_label(self) -> Seq<char> {
        match self {
            RedemptionKind::Priority => "priority"@,
            RedemptionKind::Standard => "standard"@,
        }
    }

    pub fn lane(self) -> (r: Lane)
        ensures
            r == self.spec_lane(),
    {
        match self {
            RedemptionKind::Priority => Lane::Priority,
            RedemptionKind::Standard => Lane::Standard,
        }
    }

    pub fn label(self) -> (r: &'static str)
        ensures
            r@ == self.spec_label(),
    {
        match self {
            RedemptionKind::Priority => "priority",
            RedemptionKind::Standard => "standard",
        }
    }
}

#[derive(Debug, Clone, Copy, PartialEq, Eq, Structural)]
pub enum RedemptionStatus {
    Queued,
    PendingUnlock,
    Cancelled,
    Withdrawn,
}

impl RedemptionStatus {
    pub open spec fn spec_may_cancel(self) -> bool {
        self is Queued || self is PendingUnlock
    }

    pub open spec fn spec_label(self) -> Seq<char> {
        match self {
            RedemptionStatus::Queued => "queued"@,
            RedemptionStatus::PendingUnlock => "pending_unlock"@,
            RedemptionStatus::Cancelled => "cancelled"@,
            RedemptionStatus::Withdrawn => "withdrawn"@,
        }
    }

    pub fn may_cancel(self) -> (r: bool)
        ensures
            r == self.spec_may_cancel(),
    {
        match self {
            RedemptionStatus::Queued | RedemptionStatus::PendingUnlock => true,
            _ => false,
        }
    }

    pub fn may_schedule(self) -> (r: bool)
        ensures
            r == (self is Queued),
    {
        match self {
            RedemptionStatus::Queued => true,
            _ => false,
        }
    }

    pub fn may_withdraw(self) -> (r: bool)
        ensures
            r == (self is PendingUnlock),
    {
        match self {
            RedemptionStatus::PendingUnlock => true,
            _ => false,
        }
    }

    pub fn label(self) -> (r: &'static str)
        ensures
            r@ == self.spec_label(),
    {
        match self {
            RedemptionStatus::Queued => "queued",
            RedemptionStatus::PendingUnlock => "pending_unlock",
            RedemptionStatus::Cancelled => "cancelled",
            RedemptionStatus::Withdrawn => "withdrawn",
        }
    }
}

/// The fields of a new redemption ticket.
#[derive(Debug, Clone, PartialEq, Eq)]
pub struct RedemptionTicketDraft {
    pub id: RedemptionId,
    pub account: AccountId,
    pub vault: VaultId,
    pub asset: AssetId,
    pub shares: Amount,
    pub quoted_assets: Amount,
    pub kind: RedemptionKind,
    pub requested_day: EpochDay,
    pub unlock_day: EpochDay,
    pub window: WindowId,
    pub sequence: u64,
}

/// A request to redeem shares for the vault's asset.
#[derive(Debug, Clone, Copy, PartialEq, Eq, Structural)]
pub struct RedemptionTicket {
    id: RedemptionId,
    account: AccountId,
    vault: VaultId,
    asset: AssetId,
    shares: Amount,
    quoted_assets: Amount,
    kind: RedemptionKind,
    status: RedemptionStatus,
    requested_day: EpochDay,
    unlock_day: EpochDay,
    window: WindowId,
    sequence: u64,
}

/// The text of a refused payout of `amount` from vault `k`, whose reserve
/// holds only `reserve`.
pub open spec fn shortfall_detail(k: u64, reserve: nat, amount: nat) -> Seq<char> {
    "vault "@ + "vault-"@ + decimal(k as nat) + " reserve "@ + decimal(reserve) + " below withdrawal "@ + decimal(amount)
}

/// What a refused move of a ticket to `to` says it cannot do.
pub open spec fn transition_verb(to: RedemptionStatus) -> Seq<char> {
    if to is PendingUnlock {
        "cannot be scheduled"@
    } else if to is Cancelled {
        "cannot be cancelled"@
    } else {
        "cannot withdraw"@
    }
}

impl RedemptionTicket {
    pub closed spec fn spec_id(self) -> RedemptionId {
        self.id
    }

    pub closed spec fn spec_account(self) -> AccountId {
        self.account
    }

    pub closed spec fn spec_vault(self) -> VaultId {
        self.vault
    }

    pub closed spec fn spec_asset(self) -> AssetId {
        self.asset
    }

    pub closed spec fn spec_shares(self) -> Amount {
        self.shares
    }

    pub closed spec fn spec_quoted(self) -> Amount {
        self.quoted_assets
    }

    pub closed spec fn spec_kind(self) -> RedemptionKind {
        self.kind
    }

    pub closed spec fn spec_status(self) -> RedemptionStatus {
        self.status
    }

    pub closed spec fn spec_requested_day(self) -> EpochDay {
        self.requested_day
    }

    pub closed spec fn spec_unlock_day(self) -> EpochDay {
        self.unlock_day
    }

    pub closed spec fn spec_window(self) -> WindowId {
        self.window
    }

    pub closed spec fn spec_sequence(self) -> u64 {
        self.sequence
    }

    /// The same ticket in another status.
    pub closed spec fn with_status(self, status: RedemptionStatus) -> Self {
        RedemptionTicket { status, ..self }
    }

    /// The text of the refusal to move the ticket out of its present status,
    /// `verb` saying what was refused.
    #[verifier::opaque]
    pub open spec fn status_detail(self, verb: Seq<char>) -> Seq<char> {
        "ticket "@ + "rdm-"@ + decimal(self.spec_id()@ as nat) + " "@ + verb + " from "@ + self.spec_status().spec_label()
    }

    pub proof fn lemma_with_status(self, status: RedemptionStatus)
        ensures
            self.with_status(status).spec_status() == status,
            self.with_status(status).spec_id() == self.spec_id(),
            self.with_status(status).spec_account() == self.spec_account(),
            self.with_status(status).spec_vault() == self.spec_vault(),
            self.with_status(status).spec_asset() == self.spec_asset(),
            self.with_status(status).spec_shares() == self.spec_shares(),
            self.with_status(status).spec_quoted() == self.spec_quoted(),
            self.with_status(status).spec_kind() == self.spec_kind(),
            self.with_status(status).spec_requested_day() == self.spec_requested_day(),
            self.with_status(status).spec_unlock_day() == self.spec_unlock_day(),
            self.with_status(status).spec_window() == self.spec_window(),
            self.with_status(status).spec_sequence() == self.spec_sequence(),
            self.with_status(self.spec_status()) == self,
    {
    }

    /// The ticket made from `draft`, waiting in the queue.
    pub open spec fn made_from(self, draft: RedemptionTicketDraft) -> bool {
        &&& self.spec_id() == draft.id
        &&& self.spec_account() == draft.account
        &&& self.spec_vault() == draft.vault
        &&& self.spec_asset() == draft.asset
        &&& self.spec_shares() == draft.shares
        &&& self.spec_quoted() == draft.quoted_assets
        &&& self.spec_kind() == draft.kind
        &&& self.spec_status() == RedemptionStatus::Queued
        &&& self.spec_requested_day() == draft.requested_day
        &&& self.spec_unlock_day() == draft.unlock_day
        &&& self.spec_window() == draft.window
        &&& self.spec_sequence() == draft.sequence
    }

    pub fn from_draft(draft: RedemptionTicketDraft) -> (r: Self)
        ensures
            r.made_from(draft),
    {
        RedemptionTicket {
            id: draft.id,
            account: draft.account,
            vault: draft.vault,
            asset: draft.asset,
            shares: draft.shares,
            quoted_assets: draft.quoted_assets,
            kind: draft.kind,
            status: RedemptionStatus::Queued,
            requested_day: draft.requested_day,
            unlock_day: draft.unlock_day,
            window: draft.window,
            sequence: draft.sequence,
        }
    }

    pub fn id(&self) -> (r: RedemptionId)
        ensures
            r == self.spec_id(),
    {
        self.id
    }

    pub fn account(&self) -> (r: AccountId)
        ensures
            r == self.spec_account(),
    {
        self.account
    }

    pub fn vault(&self) -> (r: VaultId)
        ensures
            r == self.spec_vault(),
    {
        self.vault
    }

    pub fn asset(&self) -> (r: AssetId)
        ensures
            r == self.spec_asset(),
    {
        self.asset
    }

    pub fn shares(&self) -> (r: Amount)
        ensures
            r == self.spec_shares(),
    {
        self.shares
    }

    pub fn quoted_assets(&self) -> (r: Amount)
        ensures
            r == self.spec_quoted(),
    {
        self.quoted_assets
    }

    pub fn kind(&self) -> (r: RedemptionKind)
        ensures
            r == self.spec_kind(),
    {
        self.kind
    }

    pub fn status(&self) -> (r: RedemptionStatus)
        ensures
            r == self.spec_status(),
    {
        self.status
    }

    pub fn requested_day(&self) -> (r: EpochDay)
        ensures
            r == self.spec_requested_day(),
    {
        self.requested_day
    }

    pub fn unlock_day(&self) -> (r: EpochDay)
        ensures
            r == self.spec_unlock_day(),
    {
        self.unlock_day
    }

    pub fn window(&self) -> (r: WindowId)
        ensures
            r == self.spec_window(),
    {
        self.window
    }

    pub fn sequence(&self) -> (r: u64)
        ensures
            r == self.spec_sequence(),
    {
        self.sequence
    }

    pub(crate) fn status_error(&self, verb: &str) -> (r: CrownError)
        ensures
            r is InvalidStatus,
            r.spec_detail() == self.status_detail(verb@),
    {
        proof { reveal(RedemptionTicket::status_detail); }
        let msg = String::from_str("ticket ").concat(self.id.label().as_str()).concat(" ").concat(
            verb,
        ).concat(" from ").concat(self.status.label());
        CrownError::InvalidStatus(msg)
    }

    /// Queued becomes pending unlock; any other status fails with
    /// `InvalidStatus` and is kept.
    pub fn mark_scheduled(&mut self) -> (r: CrownResult<()>)
        ensures
            old(self).spec_status() is Queued ==> r is Ok && *final(self) == old(self).with_status(
                RedemptionStatus::PendingUnlock,
            ),
            !(old(self).spec_status() is Queued) ==> (r matches Err(e) && e is InvalidStatus
                && e.spec_detail() == old(self).status_detail(transition_verb(RedemptionStatus::PendingUnlock))
                && *final(self) == *old(self)),
    {
        if !self.status.may_schedule() {
            return Err(self.status_error("cannot be scheduled"));
        }
        self.status = RedemptionStatus::PendingUnlock;
        Ok(())
    }

    /// Queued or pending unlock becomes cancelled; any other status fails
    /// with `InvalidStatus` and is kept.
    pub fn mark_cancelled(&mut self) -> (r: CrownResult<()>)
        ensures
            old(self).spec_status().spec_may_cancel() ==> r is Ok && *final(self) == old(
                self,
            ).with_status(RedemptionStatus::Cancelled),
            !old(self).spec_status().spec_may_cancel() ==> (r matches Err(e) && e is InvalidStatus
                && e.spec_detail() == old(self).status_detail(transition_verb(RedemptionStatus::Cancelled))
                && *final(self) == *old(self)),
    {
        if !self.status.may_cancel() {
            return Err(self.status_error("cannot be cancelled"));
        }
        self.status = RedemptionStatus::Cancelled;
        Ok(())
    }

    /// Pending unlock becomes withdrawn; any other status fails with
    /// `InvalidStatus` and is kept.
    pub fn mark_withdrawn(&mut self) -> (r: CrownResult<()>)
        ensures
            old(self).spec_status() is PendingUnlock ==> r is Ok && *final(self) == old(
                self,
            ).with_status(RedemptionStatus::Withdrawn),
            !(old(self).spec_status() is PendingUnlock) ==> (r matches Err(e) && e is InvalidStatus
                && e.spec_detail() == old(self).status_detail(transition_verb(RedemptionStatus::Withdrawn))
                && *final(self) == *old(self)),
    {
        if !self.status.may_withdraw() {
            return Err(self.status_error("cannot withdraw"));
        }
        self.status = RedemptionStatus::Withdrawn;
        Ok(())
    }
}

/// The static configuration of a vault.
#[derive(Debug, Clone)]
pub struct VaultConfig {
    id: VaultId,
    name: String,
    asset: AssetId,
    policy: RedemptionPolicy,
    windows: IdMap<UnlockWindow>,
}

impl VaultConfig {
    pub closed spec fn spec_id(&self) -> VaultId {
        self.id
    }

    pub closed spec fn spec_name(&self) -> Seq<char> {
        self.name@
    }

    pub closed spec fn spec_asset(&self) -> AssetId {
        self.asset
    }

    pub closed spec fn spec_policy(&self) -> RedemptionPolicy {
        self.policy
    }

    /// The windows in increasing identifier order.
    pub closed spec fn window_entries(&self) -> Seq<(u64, UnlockWindow)> {
        self.windows.entries()
    }

    pub closed spec fn spec_windows(&self) -> Map<u64, UnlockWindow> {
        self.windows.view()
    }

    pub closed spec fn wf(&self) -> bool {
        &&& self.windows.wf()
        &&& forall|i: int|
            0 <= i < self.windows.entries().len() ==> (#[trigger] self.windows.entries()[i]).1.spec_id()@
                == self.windows.entries()[i].0
    }

    /// The windows are in strictly increasing identifier order and filed
    /// under their identifiers.
    pub proof fn lemma_windows(&self)
        requires
            self.wf(),
        ensures
            crate::idmap::sorted_keys(self.window_entries()),
            forall|i: int| 0 <= i < self.window_entries().len() ==> (#[trigger] self.window_entries()[i]).1.spec_id()@
                == self.window_entries()[i].0,
    {
    }

    /// Fails with `InvalidPolicy` when the name is blank.
    pub fn new(id: VaultId, name: &str, asset: AssetId, policy: RedemptionPolicy) -> (r: CrownResult<Self>)
        ensures
            blank(name@) ==> (r matches Err(e) && e is InvalidPolicy && e.spec_detail()
                == "vault name is empty"@),
            !blank(name@) ==> (r matches Ok(c) && c.wf() && c.spec_id() == id && c.spec_name()
                == name@ && c.spec_asset() == asset && c.spec_policy() == policy
                && c.window_entries().len() == 0 && c.spec_windows() == Map::<u64, UnlockWindow>::empty()),
    {
        if is_blank(name) {
            return Err(CrownError::InvalidPolicy(String::from_str("vault name is empty")));
        }
        Ok(VaultConfig { id, name: String::from_str(name), asset, policy, windows: IdMap::new() })
    }

    pub fn id(&self) -> (r: VaultId)
        ensures
            r == self.spec_id(),
    {
        self.id
    }

    pub fn name(&self) -> (r: &str)
        ensures
            r@ == self.spec_name(),
    {
        self.name.as_str()
    }

    pub fn asset(&self) -> (r: AssetId)
        ensures
            r == self.spec_asset(),
    {
        self.asset
    }

    pub fn policy(&self) -> (r: RedemptionPolicy)
        ensures
            r == self.spec_policy(),
    {
        self.policy
    }

    /// Adds a window; fails with `InvalidPolicy` when its identifier is taken.
    pub fn add_window(&mut self, window: UnlockWindow) -> (r: CrownResult<()>)
        requires
            old(self).wf(),
        ensures
            final(self).wf(),
            final(self).spec_id() == old(self).spec_id(),
            final(self).spec_name() == old(self).spec_name(),
            final(self).spec_asset() == old(self).spec_asset(),
            final(self).spec_policy() == old(self).spec_policy(),
            old(self).spec_windows().contains_key(window.spec_id()@) ==> (r matches Err(e)
                && e is InvalidPolicy && e.spec_detail() == "window "@ + "win-"@ + decimal(window.spec_id()@ as nat)
                + " already configured"@ && final(self).window_entries() == old(self).window_entries()),
            !old(self).spec_windows().contains_key(window.spec_id()@) ==> (r is Ok
                && final(self).spec_windows() == old(self).spec_windows().insert(window.spec_id()@, window)
                && exists|p: int| 0 <= p <= old(self).window_entries().len() && final(self).window_entries()
                    == old(self).window_entries().insert(p, (window.spec_id()@, window))),
    {
        if self.windows.contains_key(window.id().raw()) {
            let msg = String::from_str("window ").concat(window.id().label().as_str()).concat(
                " already configured",
            );
            return Err(CrownError::InvalidPolicy(msg));
        }
        let ghost old_entries = self.windows.entries();
        self.windows.insert(window.id().raw(), window);
        proof {
            let p = choose|p: int| 0 <= p <= old_entries.len() && self.windows.entries() == old_entries.insert(p, (window.spec_id()@, window));
            let s = self.windows.entries();
            assert forall|a: int| 0 <= a < s.len() implies (#[trigger] s[a]).1.spec_id()@ == s[a].0 by {
                if a < p { assert(s[a] == old_entries[a]); } else if a > p { assert(s[a] == old_entries[a - 1]); }
            }
            assert(self.window_entries() == old_entries.insert(p, (window.spec_id()@, window)));
            assert(old_entries == old(self).window_entries());
            assert(self.spec_windows() == old(self).spec_windows().insert(window.spec_id()@, window));
            assert(exists|p: int| 0 <= p <= old(self).window_entries().len() && self.window_entries()
                    == old(self).window_entries().insert(p, (window.spec_id()@, window)));
        }
        Ok(())
    }

    /// Fails with `MissingWindow` when no window has the identifier.
    pub fn window(&self, id: WindowId) -> (r: CrownResult<UnlockWindow>)
        requires
            self.wf(),
        ensures
            self.spec_windows().contains_key(id@) ==> r == Ok::<UnlockWindow, CrownError>(self.spec_windows()[id@]),
            !self.spec_windows().contains_key(id@) ==> (r matches Err(e) && e is MissingWindow
                && e.spec_detail() == "win-"@ + decimal(id@ as nat)),
    {
        match self.windows.get(id.raw()) {
            Some(w) => Ok(*w),
            None => Err(CrownError::MissingWindow(id.label())),
        }
    }

    /// The window with the smallest identifier; fails with `MissingWindow`
    /// when there is none.
    pub fn first_window(&self) -> (r: CrownResult<UnlockWindow>)
        ensures
            self.window_entries().len() > 0 ==> r == Ok::<UnlockWindow, CrownError>(self.window_entries()[0].1),
            self.window_entries().len() == 0 ==> (r matches Err(e) && e is MissingWindow
                && e.spec_detail() == "vault-"@ + decimal(self.spec_id()@ as nat)),
    {
        if self.windows.len() > 0 {
            let (_, w) = self.windows.entry_at(0);
            Ok(*w)
        } else {
            Err(CrownError::MissingWindow(self.id.label()))
        }
    }

    /// The windows in increasing identifier order.
    pub fn windows(&self) -> (r: Vec<UnlockWindow>)
        ensures
            r@ == self.window_entries().map_values(|e: (u64, UnlockWindow)| e.1),
    {
        let mut out: Vec<UnlockWindow> = Vec::new();
        let mut i: usize = 0;
        while i < self.windows.len()
            invariant
                i <= self.window_entries().len(),
                out@ == self.window_entries().take(i as int).map_values(|e: (u64, UnlockWindow)| e.1),
            decreases self.window_entries().len() - i,
        {
            let (_, w) = self.windows.entry_at(i);
            out.push(*w);
            proof {
                assert(self.window_entries().take(i as int + 1).map_values(|e: (u64, UnlockWindow)| e.1)
                    =~= self.window_entries().take(i as int).map_values(|e: (u64, UnlockWindow)| e.1).push(*w));
            }
            i = i + 1;
        }
        proof { assert(self.window_entries().take(i as int) =~= self.window_entries()); }
        out
    }
}

/// The quote still owed by a ticket that is queued or pending unlock.
pub open spec fn open_quote(t: RedemptionTicket) -> nat {
    if t.spec_status().spec_may_cancel() { t.spec_quoted()@ } else { 0 }
}

/// The total quote owed by the open tickets of `s`.
pub open spec fn open_quotes(s: Seq<(u64, RedemptionTicket)>) -> nat {
    sum_by(s, |t: RedemptionTicket| open_quote(t))
}

/// The balances and tickets of one vault.
#[derive(Debug, Clone)]
pub struct VaultState {
    config: VaultConfig,
    reserve_assets: Amount,
    total_shares: Amount,
    pending_assets: Amount,
    tickets: IdMap<RedemptionTicket>,
}

impl VaultState {
    pub closed spec fn spec_config(&self) -> VaultConfig {
        self.config
    }

    pub closed spec fn spec_reserve(&self) -> nat {
        self.reserve_assets@
    }

    pub closed spec fn spec_total_shares(&self) -> nat {
        self.total_shares@
    }

    pub closed spec fn spec_pending(&self) -> nat {
        self.pending_assets@
    }

    /// The reserve not earmarked for pending redemptions (nothing when the
    /// pending assets exceed it).
    pub open spec fn spec_liquid(&self) -> nat {
        if self.spec_pending() <= self.spec_reserve() { (self.spec_reserve() - self.spec_pending()) as nat } else { 0 }
    }

    pub closed spec fn spec_tickets(&self) -> Map<u64, RedemptionTicket> {
        self.tickets.view()
    }

    /// The tickets in increasing identifier order.
    pub closed spec fn ticket_entries(&self) -> Seq<(u64, RedemptionTicket)> {
        self.tickets.entries()
    }

    pub open spec fn spec_id(&self) -> VaultId {
        self.spec_config().spec_id()
    }

    pub open spec fn spec_asset(&self) -> AssetId {
        self.spec_config().spec_asset()
    }

    pub open spec fn spec_policy(&self) -> RedemptionPolicy {
        self.spec_config().spec_policy()
    }

    /// Tickets are filed under their identifiers and the pending assets
    /// cover the quotes of all open tickets.
    pub closed spec fn wf(&self) -> bool {
        &&& self.config.wf()
        &&& self.tickets.wf()
        &&& forall|i: int|
            0 <= i < self.tickets.entries().len() ==> (#[trigger] self.tickets.entries()[i]).1.spec_id()@
                == self.tickets.entries()[i].0
        &&& open_quotes(self.tickets.entries()) <= self.pending_assets@
    }

    /// Only the ticket of `id`, if any, and the pending assets differ.
    pub open spec fn same_balances(&self, other: &Self) -> bool {
        &&& self.spec_config() == other.spec_config()
        &&& self.spec_reserve() == other.spec_reserve()
        &&& self.spec_total_shares() == other.spec_total_shares()
    }

    /// The pending assets always cover what open tickets are owed.
    /// Reserve, share supply and pending assets are amounts.
    pub proof fn lemma_bounded(&self)
        ensures
            self.spec_reserve() <= amount_max(),
            self.spec_total_shares() <= amount_max(),
            self.spec_pending() <= amount_max(),
    {
    }

    pub proof fn lemma_pending_covers_open_tickets(&self)
        requires
            self.wf(),
        ensures
            open_quotes(self.ticket_entries()) <= self.spec_pending(),
            forall|k: u64| #[trigger] self.spec_tickets().contains_key(k) ==> open_quote(self.spec_tickets()[k]) <= self.spec_pending(),
    {
        assert forall|k: u64| #[trigger] self.spec_tickets().contains_key(k) implies open_quote(self.spec_tickets()[k]) <= self.spec_pending() by {
            let i = self.tickets.lemma_key(k);
            lemma_sum_ge_entry(self.tickets.entries(), i, |t: RedemptionTicket| open_quote(t));
        }
    }

    /// The tickets come in increasing identifier order.
    pub proof fn lemma_sorted(&self)
        requires
            self.wf(),
        ensures
            crate::idmap::sorted_keys(self.ticket_entries()),
    {
    }

    /// A ticket of the vault sits at some position of the entries, which
    /// come in increasing identifier order.
    pub proof fn lemma_ticket_at(&self, k: u64) -> (i: int)
        requires
            self.wf(),
            self.spec_tickets().contains_key(k),
        ensures
            crate::idmap::sorted_keys(self.ticket_entries()),
            0 <= i < self.ticket_entries().len(),
            self.ticket_entries()[i].0 == k,
            self.ticket_entries()[i].1 == self.spec_tickets()[k],
    {
        self.tickets.lemma_key(k)
    }

    pub proof fn lemma_wf(&self)
        requires
            self.wf(),
        ensures
            forall|k: u64| #[trigger] self.spec_tickets().contains_key(k) ==> self.spec_tickets()[k].spec_id()@ == k,
            forall|i: int| 0 <= i < self.ticket_entries().len() ==> self.spec_tickets().contains_key((#[trigger] self.ticket_entries()[i]).0)
                && self.spec_tickets()[self.ticket_entries()[i].0] == self.ticket_entries()[i].1,
            self.spec_config().wf(),
    {
        assert forall|k: u64| #[trigger] self.spec_tickets().contains_key(k) implies self.spec_tickets()[k].spec_id()@ == k by {
            let i = self.tickets.lemma_key(k);
        }
        assert forall|i: int| 0 <= i < self.ticket_entries().len() implies self.spec_tickets().contains_key((#[trigger] self.ticket_entries()[i]).0)
            && self.spec_tickets()[self.ticket_entries()[i].0] == self.ticket_entries()[i].1 by {
            self.tickets.lemma_entry(i);
        }
    }

    pub fn new(config: VaultConfig) -> (r: Self)
        requires
            config.wf(),
        ensures
            r.wf(),
            r.spec_config() == config,
            r.spec_reserve() == 0,
            r.spec_total_shares() == 0,
            r.spec_pending() == 0,
            r.spec_tickets() == Map::<u64, RedemptionTicket>::empty(),
            r.ticket_entries().len() == 0,
    {
        VaultState {
            config,
            reserve_assets: Amount::new(0),
            total_shares: Amount::new(0),
            pending_assets: Amount::new(0),
            tickets: IdMap::new(),
        }
    }

    pub fn id(&self) -> (r: VaultId)
        ensures
            r == self.spec_id(),
    {
        self.config.id()
    }

    pub fn name(&self) -> (r: &str)
        ensures
            r@ == self.spec_config().spec_name(),
    {
        self.config.name()
    }

    pub fn asset(&self) -> (r: AssetId)
        ensures
            r == self.spec_asset(),
    {
        self.config.asset()
    }

    pub fn policy(&self) -> (r: RedemptionPolicy)
        ensures
            r == self.spec_policy(),
    {
        self.config.policy()
    }

    pub fn config(&self) -> (r: &VaultConfig)
        ensures
            *r == self.spec_config(),
    {
        &self.config
    }

    pub fn reserve_assets(&self) -> (r: Amount)
        ensures
            r@ == self.spec_reserve(),
    {
        self.reserve_assets
    }

    pub fn total_shares(&self) -> (r: Amount)
        ensures
            r@ == self.spec_total_shares(),
    {
        self.total_shares
    }

    pub fn pending_assets(&self) -> (r: Amount)
        ensures
            r@ == self.spec_pending(),
    {
        self.pending_assets
    }

    /// Reserve not earmarked for pending redemptions.
    pub fn liquid_assets(&self) -> (r: CrownResult<Amount>)
        ensures
            self.spec_pending() <= self.spec_reserve() ==> (r matches Ok(a) && a@ == self.spec_reserve()
                - self.spec_pending()),
            self.spec_pending() > self.spec_reserve() ==> (r matches Err(e) && e is Arithmetic
                && e.spec_detail() == "amount subtraction underflow"@),
    {
        self.reserve_assets.checked_sub(self.pending_assets)
    }

    /// Fails with `MissingTicket` when the vault has no such ticket.
    pub fn ticket(&self, id: RedemptionId) -> (r: CrownResult<&RedemptionTicket>)
        requires
            self.wf(),
        ensures
            self.spec_tickets().contains_key(id@) ==> (r matches Ok(t) && *t == self.spec_tickets()[id@]),
            !self.spec_tickets().contains_key(id@) ==> (r matches Err(e) && e is MissingTicket
                && e.spec_detail() == "rdm-"@ + decimal(id@ as nat)),
    {
        match self.tickets.get(id.raw()) {
            Some(t) => Ok(t),
            None => Err(CrownError::MissingTicket(id.label())),
        }
    }

    /// Mutable access to a ticket; a change that keeps the ticket's
    /// identifier and does not reopen it keeps the vault well formed.
    pub fn ticket_mut(&mut self, id: RedemptionId) -> (r: CrownResult<&mut RedemptionTicket>)
        requires
            old(self).wf(),
        ensures
            old(self).spec_tickets().contains_key(id@) ==> (r matches Ok(t) && *t == old(
                self,
            ).spec_tickets()[id@] && (final(t).spec_id() == t.spec_id() && open_quote(*final(t))
                <= open_quote(*t) ==> final(self).wf() && final(self).spec_tickets() == old(
                self,
            ).spec_tickets().insert(id@, *final(t)) && final(self).same_balances(old(self))
                && final(self).spec_pending() == old(self).spec_pending())),
            !old(self).spec_tickets().contains_key(id@) ==> (r matches Err(e) && e is MissingTicket
                && e.spec_detail() == "rdm-"@ + decimal(id@ as nat) && *final(self) == *old(self)),
    {
        proof {
            if self.tickets.view().contains_key(id@) {
                let i = self.tickets.lemma_key(id@);
                let s = self.tickets.entries();
                assert forall|t: RedemptionTicket| #![trigger s.update(i, (id@, t))] t.spec_id() == s[i].1.spec_id() && open_quote(t) <= open_quote(s[i].1)
                    implies open_quotes(s.update(i, (id@, t))) <= self.pending_assets@
                    && (forall|a: int| 0 <= a < s.update(i, (id@, t)).len() ==> (#[trigger] s.update(i, (id@, t))[a]).1.spec_id()@ == s.update(i, (id@, t))[a].0) by {
                    lemma_sum_update(s, i, (id@, t), |t: RedemptionTicket| open_quote(t));
                }
            }
        }
        if !self.tickets.contains_key(id.raw()) {
            return Err(CrownError::MissingTicket(id.label()));
        }
        match self.tickets.get_mut(id.raw()) {
            Some(t) => Ok(t),
            None => Err(CrownError::MissingTicket(id.label())),
        }
    }

    /// Applies the transition to `to` on the ticket at position `i`; on
    /// failure nothing changes.
    fn transition_at(&mut self, i: usize, to: RedemptionStatus) -> (r: CrownResult<()>)
        requires
            old(self).wf(),
            i < old(self).ticket_entries().len(),
            to is PendingUnlock || to is Cancelled || to is Withdrawn,
        ensures
            final(self).wf(),
            final(self).same_balances(old(self)),
            final(self).spec_pending() == old(self).spec_pending(),
            ({
                let k = old(self).ticket_entries()[i as int].0;
                let t = old(self).ticket_entries()[i as int].1;
                let allowed = if to is PendingUnlock {
                    t.spec_status() is Queued
                } else if to is Cancelled {
                    t.spec_status().spec_may_cancel()
                } else {
                    t.spec_status() is PendingUnlock
                };
                &&& !allowed ==> (r matches Err(e) && e is InvalidStatus && e.spec_detail() == t.status_detail(
                    transition_verb(to)) && final(self).ticket_entries()
                    == old(self).ticket_entries() && final(self).spec_tickets() == old(self).spec_tickets())
                &&& allowed ==> (r is Ok && final(self).ticket_entries() == old(self).ticket_entries().update(
                    i as int,
                    (k, t.with_status(to)),
                ) && final(self).spec_tickets() == old(self).spec_tickets().insert(k, t.with_status(to))
                    && open_quotes(final(self).ticket_entries()) + open_quote(t) == open_quotes(
                    old(self).ticket_entries(),
                ) + open_quote(t.with_status(to)))
            }),
    {
        let ghost old_entries = self.tickets.entries();
        let ghost k = old_entries[i as int].0;
        let ghost t0 = old_entries[i as int].1;
        proof {
            lemma_sum_update(old_entries, i as int, (k, t0.with_status(to)), |t: RedemptionTicket| open_quote(t));
        }
        let t = self.tickets.value_at_mut(i);
        let r = if to == RedemptionStatus::PendingUnlock {
            t.mark_scheduled()
        } else if to == RedemptionStatus::Cancelled {
            t.mark_cancelled()
        } else {
            t.mark_withdrawn()
        };
        proof {
            let s = self.tickets.entries();
            if r is Err {
                assert(s =~= old_entries);
            } else {
                assert forall|a: int| 0 <= a < s.len() implies (#[trigger] s[a]).1.spec_id()@ == s[a].0 by {
                    if a != i { assert(s[a] == old_entries[a]); }
                }
            }
        }
        r
    }

    /// The tickets in increasing identifier order.
    pub fn tickets(&self) -> (r: Vec<&RedemptionTicket>)
        ensures
            r@.len() == self.ticket_entries().len(),
            forall|i: int| 0 <= i < r@.len() ==> *(#[trigger] r@[i]) == self.ticket_entries()[i].1,
    {
        let mut out: Vec<&RedemptionTicket> = Vec::new();
        let mut i: usize = 0;
        while i < self.tickets.len()
            invariant
                i <= self.ticket_entries().len(),
                out@.len() == i,
                forall|j: int| 0 <= j < i ==> *(#[trigger] out@[j]) == self.ticket_entries()[j].1,
            decreases self.ticket_entries().len() - i,
        {
            let (_, t) = self.tickets.entry_at(i);
            out.push(t);
            i = i + 1;
        }
        out
    }

    /// Adds to the reserve; fails with `InvalidAmount` for zero and
    /// `Arithmetic` on overflow.
    pub fn deposit_assets(&mut self, amount: Amount) -> (r: CrownResult<()>)
        requires
            old(self).wf(),
        ensures
            final(self).wf(),
            final(self).spec_config() == old(self).spec_config(),
            final(self).spec_total_shares() == old(self).spec_total_shares(),
            final(self).spec_pending() == old(self).spec_pending(),
            final(self).spec_tickets() == old(self).spec_tickets(),
            final(self).ticket_entries() == old(self).ticket_entries(),
            amount@ == 0 ==> (r matches Err(e) && e is InvalidAmount && e.spec_detail() == "vault deposit"@
                + " must be non-zero"@ && final(self).spec_reserve() == old(self).spec_reserve()),
            amount@ != 0 && old(self).spec_reserve() + amount@ > amount_max() ==> (r matches Err(e)
                && e is Arithmetic && e.spec_detail() == "amount addition overflow"@
                && final(self).spec_reserve() == old(self).spec_reserve()),
            amount@ != 0 && old(self).spec_reserve() + amount@ <= amount_max() ==> (r is Ok
                && final(self).spec_reserve() == old(self).spec_reserve() + amount@),
    {
        amount.non_zero("vault deposit")?;
        self.reserve_assets = self.reserve_assets.checked_add(amount)?;
        Ok(())
    }

    /// Adds to the share supply; fails with `InvalidAmount` for zero and
    /// `Arithmetic` on overflow.
    pub fn mint_shares(&mut self, amount: Amount) -> (r: CrownResult<()>)
        requires
            old(self).wf(),
        ensures
            final(self).wf(),
            final(self).spec_config() == old(self).spec_config(),
            final(self).spec_reserve() == old(self).spec_reserve(),
            final(self).spec_pending() == old(self).spec_pending(),
            final(self).spec_tickets() == old(self).spec_tickets(),
            final(self).ticket_entries() == old(self).ticket_entries(),
            amount@ == 0 ==> (r matches Err(e) && e is InvalidAmount && e.spec_detail() == "share mint"@
                + " must be non-zero"@ && final(self).spec_total_shares() == old(self).spec_total_shares()),
            amount@ != 0 && old(self).spec_total_shares() + amount@ > amount_max() ==> (r matches Err(e)
                && e is Arithmetic && e.spec_detail() == "amount addition overflow"@
                && final(self).spec_total_shares() == old(self).spec_total_shares()),
            amount@ != 0 && old(self).spec_total_shares() + amount@ <= amount_max() ==> (r is Ok
                && final(self).spec_total_shares() == old(self).spec_total_shares() + amount@),
    {
        amount.non_zero("share mint")?;
        self.total_shares = self.total_shares.checked_add(amount)?;
        Ok(())
    }

    /// Removes shares from the supply; fails with `Invariant` when fewer
    /// exist.
    pub fn burn_shares_for_redemption(&mut self, amount: Amount) -> (r: CrownResult<()>)
        requires
            old(self).wf(),
        ensures
            final(self).wf(),
            final(self).spec_config() == old(self).spec_config(),
            final(self).spec_reserve() == old(self).spec_reserve(),
            final(self).spec_pending() == old(self).spec_pending(),
            final(self).spec_tickets() == old(self).spec_tickets(),
            final(self).ticket_entries() == old(self).ticket_entries(),
            old(self).spec_total_shares() < amount@ ==> (r matches Err(e) && e is Invariant
                && e.spec_detail() == "vault "@ + "vault-"@ + decimal(old(self).spec_id()@ as nat) + " shares "@
                + decimal(old(self).spec_total_shares()) + " below burn "@ + decimal(amount@)
                && final(self).spec_total_shares() == old(self).spec_total_shares()),
            old(self).spec_total_shares() >= amount@ ==> (r is Ok && final(self).spec_total_shares()
                == old(self).spec_total_shares() - amount@),
    {
        if self.total_shares.raw() < amount.raw() {
            let msg = String::from_str("vault ").concat(self.id().label().as_str()).concat(
                " shares ",
            ).concat(self.total_shares.to_text().as_str()).concat(" below burn ").concat(
                amount.to_text().as_str(),
            );
            return Err(CrownError::Invariant(msg));
        }
        self.total_shares = self.total_shares.checked_sub(amount)?;
        Ok(())
    }

    /// Returns shares to the supply.
    pub fn restore_shares_from_redemption(&mut self, amount: Amount) -> (r: CrownResult<()>)
        requires
            old(self).wf(),
        ensures
            final(self).wf(),
            final(self).spec_config() == old(self).spec_config(),
            final(self).spec_reserve() == old(self).spec_reserve(),
            final(self).spec_pending() == old(self).spec_pending(),
            final(self).spec_tickets() == old(self).spec_tickets(),
            final(self).ticket_entries() == old(self).ticket_entries(),
            old(self).spec_total_shares() + amount@ > amount_max() ==> (r matches Err(e)
                && e is Arithmetic && e.spec_detail() == "amount addition overflow"@
                && final(self).spec_total_shares() == old(self).spec_total_shares()),
            old(self).spec_total_shares() + amount@ <= amount_max() ==> (r is Ok
                && final(self).spec_total_shares() == old(self).spec_total_shares() + amount@),
    {
        self.total_shares = self.total_shares.checked_add(amount)?;
        Ok(())
    }

    /// The assets owed for `shares`: their part of the reserve not already
    /// owed to pending redemptions, `shares * (reserve - pending) /
    /// total_shares`, rounded down.
    pub fn quote_redemption(&self, shares: Amount) -> (r: CrownResult<Amount>)
        ensures
            shares@ == 0 ==> (r matches Err(e) && e is InvalidAmount && e.spec_detail()
                == "redemption shares"@ + " must be non-zero"@),
            shares@ != 0 && self.spec_total_shares() == 0 ==> (r matches Err(e) && e is InvalidAmount
                && e.spec_detail() == "vault has no shares"@),
            shares@ != 0 && self.spec_total_shares() != 0 && self.spec_pending() > self.spec_reserve() ==> (
            r matches Err(e) && e is Arithmetic && e.spec_detail() == "amount subtraction underflow"@),
            shares@ != 0 && self.spec_total_shares() != 0 && self.spec_pending() <= self.spec_reserve()
                && shares@ * self.spec_liquid() > amount_max() ==> (
            r matches Err(e) && e is Arithmetic && e.spec_detail() == "amount multiplication overflow"@),
            shares@ != 0 && self.spec_total_shares() != 0 && self.spec_pending() <= self.spec_reserve()
                && shares@ * self.spec_liquid() <= amount_max() ==> (r matches Ok(a) && a@ == (shares@
                * self.spec_liquid()) / self.spec_total_shares()),
    {
        shares.non_zero("redemption shares")?;
        if self.total_shares.is_zero() {
            return Err(CrownError::InvalidAmount(String::from_str("vault has no shares")));
        }
        let liquid = self.liquid_assets()?;
        let rate = Rate::new(liquid.raw(), self.total_shares.raw())?;
        shares.checked_mul_rate(rate)
    }

    /// Files a new ticket, in whatever status it is, and adds its quote to
    /// the pending assets; fails with
    /// `Invariant` when the identifier is taken.
    pub fn insert_ticket(&mut self, ticket: RedemptionTicket) -> (r: CrownResult<()>)
        requires
            old(self).wf(),
        ensures
            final(self).wf(),
            final(self).same_balances(old(self)),
            old(self).spec_tickets().contains_key(ticket.spec_id()@) ==> (r matches Err(e)
                && e is Invariant && e.spec_detail() == "ticket "@ + "rdm-"@ + decimal(ticket.spec_id()@ as nat)
                + " already exists"@ && *final(self) == *old(self)),
            !old(self).spec_tickets().contains_key(ticket.spec_id()@) && old(self).spec_pending()
                + ticket.spec_quoted()@ > amount_max() ==> (r matches Err(e) && e is Arithmetic
                && e.spec_detail() == "amount addition overflow"@ && *final(self) == *old(self)),
            !old(self).spec_tickets().contains_key(ticket.spec_id()@) && old(self).spec_pending()
                + ticket.spec_quoted()@ <= amount_max() ==> (r is Ok && final(self).spec_tickets()
                == old(self).spec_tickets().insert(ticket.spec_id()@, ticket) && final(self).spec_pending()
                == old(self).spec_pending() + ticket.spec_quoted()@),
    {
        if self.tickets.contains_key(ticket.id().raw()) {
            let msg = String::from_str("ticket ").concat(ticket.id().label().as_str()).concat(
                " already exists",
            );
            return Err(CrownError::Invariant(msg));
        }
        self.pending_assets = self.pending_assets.checked_add(ticket.quoted_assets())?;
        let ghost old_entries = self.tickets.entries();
        self.tickets.insert(ticket.id().raw(), ticket);
        proof {
            let p = choose|p: int| 0 <= p <= old_entries.len() && self.tickets.entries() == old_entries.insert(p, (ticket.spec_id()@, ticket));
            lemma_sum_insert(old_entries, p, (ticket.spec_id()@, ticket), |t: RedemptionTicket| open_quote(t));
            let s = self.tickets.entries();
            assert forall|a: int| 0 <= a < s.len() implies (#[trigger] s[a]).1.spec_id()@ == s[a].0 by {
                if a < p { assert(s[a] == old_entries[a]); } else if a > p { assert(s[a] == old_entries[a - 1]); }
            }
        }
        Ok(())
    }

    /// Cancels an open ticket and releases its quote from the pending assets;
    /// returns the cancelled ticket.
    pub fn cancel_ticket(&mut self, id: RedemptionId) -> (r: CrownResult<RedemptionTicket>)
        requires
            old(self).wf(),
        ensures
            final(self).wf(),
            final(self).same_balances(old(self)),
            !old(self).spec_tickets().contains_key(id@) ==> (r matches Err(e) && e is MissingTicket
                && e.spec_detail() == "rdm-"@ + decimal(id@ as nat) && *final(self) == *old(self)),
            old(self).spec_tickets().contains_key(id@) && !old(self).spec_tickets()[id@].spec_status().spec_may_cancel() ==> (
            r matches Err(e) && e is InvalidStatus && e.spec_detail() == old(self).spec_tickets()[id@].status_detail(
                transition_verb(RedemptionStatus::Cancelled)) && final(self).spec_tickets() == old(self).spec_tickets()
                && final(self).spec_pending() == old(self).spec_pending()),
            old(self).spec_tickets().contains_key(id@) && old(self).spec_tickets()[id@].spec_status().spec_may_cancel() ==> (
            r matches Ok(t) && t == old(self).spec_tickets()[id@].with_status(RedemptionStatus::Cancelled)
                && final(self).spec_tickets() == old(self).spec_tickets().insert(id@, t)
                && final(self).spec_pending() == old(self).spec_pending() - old(self).spec_tickets()[id@].spec_quoted()@),
    {
        proof { self.lemma_pending_covers_open_tickets(); }
        let i = match self.tickets.find(id.raw()) {
            Some(i) => i,
            None => {
                return Err(CrownError::MissingTicket(id.label()));
            },
        };
        proof { self.tickets.lemma_entry(i as int); }
        self.transition_at(i, RedemptionStatus::Cancelled)?;
        let (_, t) = self.tickets.entry_at(i);
        let clone = *t;
        self.pending_assets = Amount::new(self.pending_assets.raw() - clone.quoted_assets.raw());
        Ok(clone)
    }

    /// Moves a queued ticket to pending unlock and returns it.
    pub fn schedule_ticket(&mut self, id: RedemptionId) -> (r: CrownResult<RedemptionTicket>)
        requires
            old(self).wf(),
        ensures
            final(self).wf(),
            final(self).same_balances(old(self)),
            final(self).spec_pending() == old(self).spec_pending(),
            !old(self).spec_tickets().contains_key(id@) ==> (r matches Err(e) && e is MissingTicket
                && e.spec_detail() == "rdm-"@ + decimal(id@ as nat) && *final(self) == *old(self)),
            old(self).spec_tickets().contains_key(id@) && !(old(self).spec_tickets()[id@].spec_status() is Queued) ==> (
            r matches Err(e) && e is InvalidStatus && e.spec_detail() == old(self).spec_tickets()[id@].status_detail(
                transition_verb(RedemptionStatus::PendingUnlock)) && final(self).spec_tickets() == old(self).spec_tickets()),
            old(self).spec_tickets().contains_key(id@) && old(self).spec_tickets()[id@].spec_status() is Queued ==> (
            r matches Ok(t) && t == old(self).spec_tickets()[id@].with_status(RedemptionStatus::PendingUnlock)
                && final(self).spec_tickets() == old(self).spec_tickets().insert(id@, t)),
    {
        let i = match self.tickets.find(id.raw()) {
            Some(i) => i,
            None => {
                return Err(CrownError::MissingTicket(id.label()));
            },
        };
        proof { self.tickets.lemma_entry(i as int); }
        self.transition_at(i, RedemptionStatus::PendingUnlock)?;
        let (_, t) = self.tickets.entry_at(i);
        Ok(*t)
    }

    /// Pays out a matured ticket from the reserve: fails with
    /// `WindowNotReady` before its unlock day, `InvalidStatus` unless it is
    /// pending unlock and `InsufficientAssets` when the reserve is short,
    /// changing nothing in that case. Returns the ticket as it was.
    pub fn withdraw_ticket(&mut self, id: RedemptionId, day: EpochDay) -> (r: CrownResult<RedemptionTicket>)
        requires
            old(self).wf(),
        ensures
            final(self).wf(),
            final(self).spec_config() == old(self).spec_config(),
            final(self).spec_total_shares() == old(self).spec_total_shares(),
            ({
                let present = old(self).spec_tickets().contains_key(id@);
                let t = old(self).spec_tickets()[id@];
                &&& !present ==> (r matches Err(e) && e is MissingTicket && e.spec_detail() == "rdm-"@ + decimal(id@ as nat) && *final(self) == *old(self))
                &&& present && day@ < t.spec_unlock_day()@ ==> (r matches Err(e) && e is WindowNotReady
                    && e.spec_detail() == "ticket "@ + "rdm-"@ + decimal(id@ as nat) + " unlocks at day "@
                    + decimal(t.spec_unlock_day()@ as nat)
                    && *final(self) == *old(self))
                &&& present && day@ >= t.spec_unlock_day()@ && !(t.spec_status() is PendingUnlock) ==> (
                r matches Err(e) && e is InvalidStatus && e.spec_detail() == t.status_detail(transition_verb(
                    RedemptionStatus::Withdrawn)) && final(self).spec_tickets() == old(self).spec_tickets()
                    && final(self).spec_reserve() == old(self).spec_reserve() && final(self).spec_pending()
                    == old(self).spec_pending())
                &&& present && day@ >= t.spec_unlock_day()@ && t.spec_status() is PendingUnlock
                    && old(self).spec_reserve() < t.spec_quoted()@ ==> (r matches Err(e)
                    && e is InsufficientAssets && e.spec_detail() == shortfall_detail(old(self).spec_id()@,
                    old(self).spec_reserve(), t.spec_quoted()@) && *final(self) == *old(self))
                &&& present && day@ >= t.spec_unlock_day()@ && t.spec_status() is PendingUnlock
                    && old(self).spec_reserve() >= t.spec_quoted()@ ==> (r == Ok::<RedemptionTicket, CrownError>(t)
                    && final(self).spec_tickets() == old(self).spec_tickets().insert(id@, t.with_status(RedemptionStatus::Withdrawn))
                    && final(self).spec_reserve() == old(self).spec_reserve() - t.spec_quoted()@
                    && final(self).spec_pending() == old(self).spec_pending() - t.spec_quoted()@)
            }),
    {
        proof { self.lemma_pending_covers_open_tickets(); }
        let ticket = *self.ticket(id)?;
        if day.raw() < ticket.unlock_day().raw() {
            let msg = String::from_str("ticket ").concat(id.label().as_str()).concat(
                " unlocks at day ",
            ).concat(crate::text::decimal_string(ticket.unlock_day().raw() as u128).as_str());
            return Err(CrownError::WindowNotReady(msg));
        }
        let i = match self.tickets.find(id.raw()) {
            Some(i) => i,
            None => {
                return Err(CrownError::MissingTicket(id.label()));
            },
        };
        proof { self.tickets.lemma_entry(i as int); }
        let pending_unlock = match ticket.status() {
            RedemptionStatus::PendingUnlock => true,
            _ => false,
        };
        if pending_unlock && self.reserve_assets.raw() < ticket.quoted_assets.raw() {
            let msg = String::from_str("vault ").concat(self.id().label().as_str()).concat(" reserve ").concat(
                self.reserve_assets.to_text().as_str(),
            ).concat(" below withdrawal ").concat(ticket.quoted_assets.to_text().as_str());
            return Err(CrownError::InsufficientAssets(msg));
        }
        self.transition_at(i, RedemptionStatus::Withdrawn)?;
        self.debit_reserve(ticket.quoted_assets())?;
        self.pending_assets = Amount::new(self.pending_assets.raw() - ticket.quoted_assets.raw());
        Ok(ticket)
    }

    /// Marks the ticket behind a consumed claim as withdrawn and releases
    /// its quote; `None` when the ticket was already cancelled or withdrawn.
    pub fn complete_ticket_from_claim(&mut self, id: RedemptionId) -> (r: CrownResult<Option<RedemptionTicket>>)
        requires
            old(self).wf(),
        ensures
            final(self).wf(),
            final(self).same_balances(old(self)),
            ({
                let present = old(self).spec_tickets().contains_key(id@);
                let t = old(self).spec_tickets()[id@];
                &&& !present ==> (r matches Err(e) && e is MissingTicket && e.spec_detail() == "rdm-"@ + decimal(id@ as nat) && *final(self) == *old(self))
                &&& present && (t.spec_status() is Cancelled || t.spec_status() is Withdrawn) ==> (r
                    == Ok::<Option<RedemptionTicket>, CrownError>(None) && *final(self) == *old(self))
                &&& present && t.spec_status() is Queued ==> (r matches Err(e) && e is InvalidStatus
                    && e.spec_detail() == t.status_detail(transition_verb(RedemptionStatus::Withdrawn))
                    && final(self).spec_tickets() == old(self).spec_tickets() && final(self).spec_pending()
                    == old(self).spec_pending())
                &&& present && t.spec_status() is PendingUnlock ==> (r == Ok::<Option<RedemptionTicket>, CrownError>(Some(t))
                    && final(self).spec_tickets() == old(self).spec_tickets().insert(id@, t.with_status(RedemptionStatus::Withdrawn))
                    && final(self).spec_pending() == old(self).spec_pending() - t.spec_quoted()@)
            }),
    {
        proof { self.lemma_pending_covers_open_tickets(); }
        let ticket = *self.ticket(id)?;
        match ticket.status() {
            RedemptionStatus::Cancelled => { return Ok(None); },
            RedemptionStatus::Withdrawn => { return Ok(None); },
            _ => {},
        }
        let i = match self.tickets.find(id.raw()) {
            Some(i) => i,
            None => {
                return Err(CrownError::MissingTicket(id.label()));
            },
        };
        proof { self.tickets.lemma_entry(i as int); }
        self.transition_at(i, RedemptionStatus::Withdrawn)?;
        self.pending_assets = Amount::new(self.pending_assets.raw() - ticket.quoted_assets.raw());
        Ok(Some(ticket))
    }

    /// Pays `amount` out of the reserve for a consumed claim.
    pub fn settle_external_claim(&mut self, amount: Amount) -> (r: CrownResult<()>)
        requires
            old(self).wf(),
        ensures
            final(self).wf(),
            final(self).spec_config() == old(self).spec_config(),
            final(self).spec_total_shares() == old(self).spec_total_shares(),
            final(self).spec_pending() == old(self).spec_pending(),
            final(self).spec_tickets() == old(self).spec_tickets(),
            final(self).ticket_entries() == old(self).ticket_entries(),
            old(self).spec_reserve() < amount@ ==> (r matches Err(e) && e is InsufficientAssets
                && e.spec_detail() == shortfall_detail(old(self).spec_id()@, old(self).spec_reserve(), amount@)
                && final(self).spec_reserve() == old(self).spec_reserve()),
            old(self).spec_reserve() >= amount@ ==> (r is Ok && final(self).spec_reserve() == old(
                self,
            ).spec_reserve() - amount@),
    {
        self.debit_reserve(amount)
    }

    fn debit_reserve(&mut self, amount: Amount) -> (r: CrownResult<()>)
        requires
            old(self).wf(),
        ensures
            final(self).wf(),
            final(self).spec_config() == old(self).spec_config(),
            final(self).spec_total_shares() == old(self).spec_total_shares(),
            final(self).spec_pending() == old(self).spec_pending(),
            final(self).spec_tickets() == old(self).spec_tickets(),
            final(self).ticket_entries() == old(self).ticket_entries(),
            old(self).spec_reserve() < amount@ ==> (r matches Err(e) && e is InsufficientAssets
                && e.spec_detail() == shortfall_detail(old(self).spec_id()@, old(self).spec_reserve(), amount@)
                && final(self).spec_reserve() == old(self).spec_reserve()),
            old(self).spec_reserve() >= amount@ ==> (r is Ok && final(self).spec_reserve() == old(
                self,
            ).spec_reserve() - amount@),
    {
        if self.reserve_assets.raw() < amount.raw() {
            let msg = String::from_str("vault ").concat(self.id().label().as_str()).concat(
                " reserve ",
            ).concat(self.reserve_assets.to_text().as_str()).concat(" below withdrawal ").concat(
                amount.to_text().as_str(),
            );
            return Err(CrownError::InsufficientAssets(msg));
        }
        self.reserve_assets = Amount::new(self.reserve_assets.raw() - amount.raw());
        Ok(())
    }

    /// Reserve per share, or one for a vault without shares.
    pub fn share_price_hint(&self) -> (r: CrownResult<Rate>)
        ensures
            self.spec_total_shares() == 0 ==> (r matches Ok(rate) && rate.num() == 1 && rate.den() == 1),
            self.spec_total_shares() != 0 ==> (r matches Ok(rate) && rate.num() == self.spec_reserve()
                && rate.den() == self.spec_total_shares()),
    {
        if self.total_shares.is_zero() {
            return Rate::new(1, 1);
        }
        Rate::new(self.reserve_assets.raw(), self.total_shares.raw())
    }

    /// The number of tickets in each status, as (label, count) pairs in label
    /// order, listing only statuses that occur.
    #[verifier::spinoff_prover]
    pub fn status_counts(&self) -> (r: Vec<(&'static str, usize)>)
        ensures
            r@.len() == status_rows(self.ticket_entries()).len(),
            forall|i: int| 0 <= i < r@.len() ==> (#[trigger] r@[i]).0@ == status_rows(
                self.ticket_entries(),
            )[i].0.spec_label() && r@[i].1 == status_rows(self.ticket_entries())[i].1,
    {
        let mut queued: usize = 0;
        let mut pending: usize = 0;
        let mut cancelled: usize = 0;
        let mut withdrawn: usize = 0;
        let ghost s = self.ticket_entries();
        let mut i: usize = 0;
        while i < self.tickets.len()
            invariant
                s == self.ticket_entries(),
                i <= s.len(),
                queued == status_count(s.take(i as int), RedemptionStatus::Queued),
                pending == status_count(s.take(i as int), RedemptionStatus::PendingUnlock),
                cancelled == status_count(s.take(i as int), RedemptionStatus::Cancelled),
                withdrawn == status_count(s.take(i as int), RedemptionStatus::Withdrawn),
                queued + pending + cancelled + withdrawn == i,
            decreases s.len() - i,
        {
            let (_, t) = self.tickets.entry_at(i);
            proof {
                assert(s.take(i as int + 1).drop_last() =~= s.take(i as int));
            }
            match t.status {
                RedemptionStatus::Queued => { queued = queued + 1; },
                RedemptionStatus::PendingUnlock => { pending = pending + 1; },
                RedemptionStatus::Cancelled => { cancelled = cancelled + 1; },
                RedemptionStatus::Withdrawn => { withdrawn = withdrawn + 1; },
            }
            i = i + 1;
        }
        proof { assert(s.take(s.len() as int) =~= s); }
        let ghost rows = status_rows(s);
        let mut out: Vec<(&'static str, usize)> = Vec::new();
        let ghost mut step: Seq<(RedemptionStatus, nat)> = Seq::empty();
        if cancelled > 0 {
            out.push(("cancelled", cancelled));
        }
        proof {
            step = status_row(s, RedemptionStatus::Cancelled);
            assert(out@.len() == step.len());
        }
        if pending > 0 {
            out.push(("pending_unlock", pending));
        }
        proof {
            step = step + status_row(s, RedemptionStatus::PendingUnlock);
            assert(out@.len() == step.len());
        }
        if queued > 0 {
            out.push(("queued", queued));
        }
        proof {
            step = step + status_row(s, RedemptionStatus::Queued);
        }
        if withdrawn > 0 {
            out.push(("withdrawn", withdrawn));
        }
        proof {
            step = step + status_row(s, RedemptionStatus::Withdrawn);
            assert(step =~= rows);
        }
        out
    }
}

/// The row of `status` in a status summary: present only when some ticket has it.
pub open spec fn status_row(s: Seq<(u64, RedemptionTicket)>, status: RedemptionStatus) -> Seq<
    (RedemptionStatus, nat),
> {
    if status_count(s, status) > 0 {
        seq![(status, status_count(s, status))]
    } else {
        Seq::empty()
    }
}

/// Statuses that occur among `s`, each with its number of tickets, in label order.
pub open spec fn status_rows(s: Seq<(u64, RedemptionTicket)>) -> Seq<(RedemptionStatus, nat)> {
    status_row(s, RedemptionStatus::Cancelled) + status_row(s, RedemptionStatus::PendingUnlock)
        + status_row(s, RedemptionStatus::Queued) + status_row(s, RedemptionStatus::Withdrawn)
}

/// Number of tickets of `s` in `status`.
pub open spec fn status_count(s: Seq<(u64, RedemptionTicket)>, status: RedemptionStatus) -> nat
    decreases s.len(),
{
    if s.len() == 0 {
        0
    } else {
        status_count(s.drop_last(), status) + if s.last().1.spec_status() == status { 1nat } else { 0nat }
    }
}

} // verus!
