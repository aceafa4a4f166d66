use vstd::prelude::*;
use crate::amount::Amount;
use crate::clock::EpochDay;
use crate::ids::{AccountId, AssetId, JournalId, RedemptionId, VaultId, WindowId};

verus! {

#[derive(Debug, Clone, Copy, PartialEq, Eq, Structural)]
pub enum EventKind {
    AccountRegistered,
    AssetRegistered,
    VaultOpened,
    SharesMinted,
    RedemptionRequested,
    RedemptionQueued,
    RedemptionCancelled,
    RedemptionScheduled,
    WithdrawalCompleted,
    LimitConsumed,
    LimitReleased,
    CapacityConsumed,
    CapacityReleased,
    WindowProcessed,
    InvariantChecked,
}

impl EventKind {
    pub open spec fn spec_label(self) -> Seq<char> {
        match self {
            EventKind::AccountRegistered => "account_registered"@,
            EventKind::AssetRegistered => "asset_registered"@,
            EventKind::VaultOpened => "vault_opened"@,
            EventKind::SharesMinted => "shares_minted"@,
            EventKind::RedemptionRequested => "redemption_requested"@,
            EventKind::RedemptionQueued => "redemption_queued"@,
            EventKind::RedemptionCancelled => "redemption_cancelled"@,
            EventKind::RedemptionScheduled => "redemption_scheduled"@,
            EventKind::WithdrawalCompleted => "withdrawal_completed"@,
            EventKind::LimitConsumed => "limit_consumed"@,
            EventKind::LimitReleased => "limit_released"@,
            EventKind::CapacityConsumed => "capacity_consumed"@,
            EventKind::CapacityReleased => "capacity_released"@,
            EventKind::WindowProcessed => "window_processed"@,
            EventKind::InvariantChecked => "invariant_checked"@,
        }
    }

    pub fn label(&self) -> (r: &'static str)
        ensures
            r@ == self.spec_label(),
    {
        match self {
            EventKind::AccountRegistered => "account_registered",
            EventKind::AssetRegistered => "asset_registered",
            EventKind::VaultOpened => "vault_opened",
            EventKind::SharesMinted => "shares_minted",
            EventKind::RedemptionRequested => "redemption_requested",
            EventKind::RedemptionQueued => "redemption_queued",
            EventKind::RedemptionCancelled => "redemption_cancelled",
            EventKind::RedemptionScheduled => "redemption_scheduled",
            EventKind::WithdrawalCompleted => "withdrawal_completed",
            EventKind::LimitConsumed => "limit_consumed",
            EventKind::LimitReleased => "limit_released",
            EventKind::CapacityConsumed => "capacity_consumed",
            EventKind::CapacityReleased => "capacity_released",
            EventKind::WindowProcessed => "window_processed",
            EventKind::InvariantChecked => "invariant_checked",
        }
    }
}

/// One entry of the protocol journal.
#[derive(Debug, Clone)]
pub struct Event {
    id: JournalId,
    day: EpochDay,
    kind: EventKind,
    account: Option<AccountId>,
    vault: Option<VaultId>,
    asset: Option<AssetId>,
    redemption: Option<RedemptionId>,
    window: Option<WindowId>,
    amount: Option<Amount>,
    note: String,
}

/// The contents of an event, as plain values.
pub struct EventView {
    pub id: JournalId,
    pub day: EpochDay,
    pub kind: EventKind,
    pub account: Option<AccountId>,
    pub vault: Option<VaultId>,
    pub asset: Option<AssetId>,
    pub redemption: Option<RedemptionId>,
    pub window: Option<WindowId>,
    pub amount: Option<Amount>,
    pub note: Seq<char>,
}

impl View for Event {
    type V = EventView;

    closed spec fn view(&self) -> EventView {
        EventView {
            id: self.id,
            day: self.day,
            kind: self.kind,
            account: self.account,
            vault: self.vault,
            asset: self.asset,
            redemption: self.redemption,
            window: self.window,
            amount: self.amount,
            note: self.note@,
        }
    }
}

impl Event {
    /// A builder for an event with no optional fields and an empty note.
    pub fn builder(id: JournalId, day: EpochDay, kind: EventKind) -> (r: EventBuilder)
        ensures
            r@ == (EventView {
                id,
                day,
                kind,
                account: None,
                vault: None,
                asset: None,
                redemption: None,
                window: None,
                amount: None,
                note: Seq::empty(),
            }),
    {
        EventBuilder {
            event: Event {
                id,
                day,
                kind,
                account: None,
                vault: None,
                asset: None,
                redemption: None,
                window: None,
                amount: None,
                note: String::new(),
            },
        }
    }

    pub fn id(&self) -> (r: JournalId)
        ensures
            r == self@.id,
    {
        self.id
    }

    pub fn day(&self) -> (r: EpochDay)
        ensures
            r == self@.day,
    {
        self.day
    }

    pub fn kind(&self) -> (r: &EventKind)
        ensures
            *r == self@.kind,
    {
        &self.kind
    }

    pub fn account(&self) -> (r: Option<AccountId>)
        ensures
            r == self@.account,
    {
        self.account
    }

    pub fn vault(&self) -> (r: Option<VaultId>)
        ensures
            r == self@.vault,
    {
        self.vault
    }

    pub fn asset(&self) -> (r: Option<AssetId>)
        ensures
            r == self@.asset,
    {
        self.asset
    }

    pub fn redemption(&self) -> (r: Option<RedemptionId>)
        ensures
            r == self@.redemption,
    {
        self.redemption
    }

    pub fn window(&self) -> (r: Option<WindowId>)
        ensures
            r == self@.window,
    {
        self.window
    }

    pub fn amount(&self) -> (r: Option<Amount>)
        ensures
            r == self@.amount,
    {
        self.amount
    }

    pub fn note(&self) -> (r: &str)
        ensures
            r@ == self@.note,
    {
        self.note.as_str()
    }
}

/// Fills in the optional fields of an event.
pub struct EventBuilder {
    event: Event,
}

impl View for EventBuilder {
    type V = EventView;

    closed spec fn view(&self) -> EventView {
        self.event@
    }
}

impl EventBuilder {
    pub fn account(self, id: AccountId) -> (r: Self)
        ensures
            r@ == (EventView { account: Some(id), ..self@ }),
    {
        let mut b = self;
        b.event.account = Some(id);
        b
    }

    pub fn vault(self, id: VaultId) -> (r: Self)
        ensures
            r@ == (EventView { vault: Some(id), ..self@ }),
    {
        let mut b = self;
        b.event.vault = Some(id);
        b
    }

    pub fn asset(self, id: AssetId) -> (r: Self)
        ensures
            r@ == (EventView { asset: Some(id), ..self@ }),
    {
        let mut b = self;
        b.event.asset = Some(id);
        b
    }

    pub fn redemption(self, id: RedemptionId) -> (r: Self)
        ensures
            r@ == (EventView { redemption: Some(id), ..self@ }),
    {
        let mut b = self;
        b.event.redemption = Some(id);
        b
    }

    pub fn window(self, id: WindowId) -> (r: Self)
        ensures
            r@ == (EventView { window: Some(id), ..self@ }),
    {
        let mut b = self;
        b.event.window = Some(id);
        b
    }

    pub fn amount(self, amount: Amount) -> (r: Self)
        ensures
            r@ == (EventView { amount: Some(amount), ..self@ }),
    {
        let mut b = self;
        b.event.amount = Some(amount);
        b
    }

    pub fn note(self, note: &str) -> (r: Self)
        ensures
            r@ == (EventView { note: note@, ..self@ }),
    {
        let mut b = self;
        b.event.note = String::from_str(note);
        b
    }

    pub fn build(self) -> (r: Event)
        ensures
            r@ == self@,
    {
        self.event
    }
}

} // verus!
