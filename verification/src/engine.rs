use vstd::prelude::*;
use crate::accounts::{balance_of, set_or_drop, Account, AccountRegistry, AccountTier};
use crate::amount::{amount_max, Amount};
use crate::asset::{AssetMetadata, AssetRegistry};
use crate::clock::{Clock, EpochDay, UnlockWindow, WindowKind, WindowSpec};
use crate::error::{CrownError, CrownResult};
use crate::events::{EventKind, EventView};
use crate::idmap::IdMap;
use crate::text::{blank, decimal, is_space, lower, upper};
use crate::ids::{AccountId, AssetId, IdAllocator, JournalId, RedemptionId, VaultId};
use crate::ledger::{
    claims_covered, conservation_detail, conservation_gap, coverage_detail, coverage_gap, note_event, shares_conserved,
    LedgerTotals, ProtocolLedger,
};
use crate::policy::{CapacityLedger, DailyLimitPolicy, LimitLedger, PriorityPolicy, RedemptionPolicy};
use crate::priority::{mature_claims, ClaimState, open_amount, open_claim_seq, PriorityBook, PriorityClaim, PriorityClaimDraft};
use crate::queue::{drop_served, service_order, Lane, QueueBook, QueueItem, QueueRequest, QueueSnapshot};
use crate::reconcile::{
    claims_owed, held_assets, held_shares, key_total, lemma_claims_owed, lemma_claims_owed_prefix,
    lemma_claims_owed_step, lemma_held_prefix, lemma_held_step, lemma_key_total,
    lemma_key_total_prefix, lemma_key_total_step, lemma_open_seq_pending, owed_claims, owed_to,
};
use crate::vault::{
    open_quote, open_quotes, shortfall_detail, transition_verb, RedemptionKind, RedemptionStatus, RedemptionTicket, RedemptionTicketDraft, VaultConfig,
    VaultState,
};

verus! {

broadcast use crate::amount::group_amount;

/// Settings of an engine.
#[derive(Debug, Clone, Copy)]
pub struct EngineConfig {
    default_asset_decimals: u8,
    invariant_checks: bool,
}

impl EngineConfig {
    pub closed spec fn spec_default_asset_decimals(self) -> u8 {
        self.default_asset_decimals
    }

    pub closed spec fn spec_invariant_checks(self) -> bool {
        self.invariant_checks
    }

    pub fn default_asset_decimals(self) -> (r: u8)
        ensures
            r == self.spec_default_asset_decimals(),
    {
        self.default_asset_decimals
    }

    /// Whether every mutating operation ends with the reconciliation checks.
    pub fn invariant_checks(self) -> (r: bool)
        ensures
            r == self.spec_invariant_checks(),
    {
        self.invariant_checks
    }
}

impl Default for EngineConfig {
    fn default() -> (r: Self)
        ensures
            r.spec_default_asset_decimals() == 6,
            r.spec_invariant_checks(),
    {
        EngineConfig { default_asset_decimals: 6, invariant_checks: true }
    }
}

/// What an accepted redemption request returns.
#[derive(Debug, Clone, PartialEq, Eq)]
pub struct RequestReceipt {
    pub redemption_id: RedemptionId,
    pub account: AccountId,
    pub vault: VaultId,
    pub kind: RedemptionKind,
    pub shares: Amount,
    pub quoted_assets: Amount,
    pub unlock_day: EpochDay,
}

/// What a completed withdrawal returns.
#[derive(Debug, Clone, PartialEq, Eq)]
pub struct WithdrawalReceipt {
    pub account: AccountId,
    pub vault: VaultId,
    pub asset: AssetId,
    pub amount: Amount,
    pub redemptions: Vec<RedemptionId>,
}

/// The journal entries of the reconciliation checks that passed, numbered
/// after journal entry `last`: first share conservation, then claim coverage.
pub open spec fn check_events(day: EpochDay, last: u64, n: nat) -> Seq<EventView> {
    let share = note_event((last + 1) as u64, day, EventKind::InvariantChecked, "share conservation"@);
    let claim = note_event((last + 2) as u64, day, EventKind::InvariantChecked, "claim coverage"@);
    if n == 0 {
        Seq::empty()
    } else if n == 1 {
        seq![share]
    } else {
        seq![share, claim]
    }
}

/// The error codes are non-empty.
pub proof fn lemma_error_codes()
    ensures
        "missing_account"@.len() > 0,
        "missing_vault"@.len() > 0,
        "invalid_amount"@.len() > 0,
        "invalid_lane"@.len() > 0,
        "insufficient_shares"@.len() > 0,
        "queue_capacity"@.len() > 0,
        "arithmetic"@.len() > 0,
        "limit_exceeded"@.len() > 0,
        "missing_window"@.len() > 0,
        "window_closed"@.len() > 0,
        "invariant"@.len() > 0,
        "missing_ticket"@.len() > 0,
        "invalid_status"@.len() > 0,
        "window_not_ready"@.len() > 0,
        "missing_claim"@.len() > 0,
        "insufficient_assets"@.len() > 0,
{
    reveal_strlit("missing_account");
    reveal_strlit("missing_vault");
    reveal_strlit("invalid_amount");
    reveal_strlit("invalid_lane");
    reveal_strlit("insufficient_shares");
    reveal_strlit("queue_capacity");
    reveal_strlit("arithmetic");
    reveal_strlit("limit_exceeded");
    reveal_strlit("missing_window");
    reveal_strlit("window_closed");
    reveal_strlit("invariant");
    reveal_strlit("missing_ticket");
    reveal_strlit("invalid_status");
    reveal_strlit("window_not_ready");
    reveal_strlit("missing_claim");
    reveal_strlit("insufficient_assets");
}

/// The allocator's counter names are distinct.
pub proof fn lemma_counter_names()
    ensures
        "account"@ != "asset"@,
        "account"@ != "vault"@,
        "account"@ != "redemption"@,
        "account"@ != "window"@,
        "account"@ != "journal"@,
        "account"@ != "route"@,
        "asset"@ != "vault"@,
        "asset"@ != "redemption"@,
        "asset"@ != "window"@,
        "asset"@ != "journal"@,
        "asset"@ != "route"@,
        "vault"@ != "redemption"@,
        "vault"@ != "window"@,
        "vault"@ != "journal"@,
        "vault"@ != "route"@,
        "redemption"@ != "window"@,
        "redemption"@ != "journal"@,
        "redemption"@ != "route"@,
        "window"@ != "journal"@,
        "window"@ != "route"@,
        "journal"@ != "route"@,
{
    reveal_strlit("account");
    reveal_strlit("asset");
    reveal_strlit("vault");
    reveal_strlit("redemption");
    reveal_strlit("window");
    reveal_strlit("journal");
    reveal_strlit("route");
    assert("account"@.len() == 7 && "account"@[0] == 'a');
    assert("asset"@.len() == 5 && "asset"@[0] == 'a');
    assert("vault"@.len() == 5 && "vault"@[0] == 'v');
    assert("redemption"@.len() == 10 && "redemption"@[0] == 'r');
    assert("window"@.len() == 6 && "window"@[0] == 'w');
    assert("journal"@.len() == 7 && "journal"@[0] == 'j');
    assert("route"@.len() == 5 && "route"@[0] == 'r');
}

/// An opening window: the identifier, the kind, open from day 0 to day 30
/// with the delay, and capacity counted from day 0.
pub open spec fn opening_window(e: (u64, UnlockWindow), id: u64, kind: WindowKind, delay: u64) -> bool {
    &&& e.0 == id
    &&& e.1.spec_id()@ == id
    &&& e.1.spec_spec().spec_kind() == kind
    &&& e.1.spec_spec().spec_open_day()@ == 0
    &&& e.1.spec_spec().spec_close_day()@ == 30
    &&& e.1.spec_spec().spec_unlock_delay() == delay
    &&& e.1.spec_spec().spec_capacity_epoch()@ == 0
}

/// `b` is vault `a` with its reserve, share supply and pending assets moved
/// by the given steps and everything else the same.
pub open spec fn vault_moved(a: VaultState, b: VaultState, reserve: int, total: int, pending: int) -> bool {
    &&& b.spec_config() == a.spec_config()
    &&& b.spec_reserve() == a.spec_reserve() + reserve
    &&& b.spec_total_shares() == a.spec_total_shares() + total
    &&& b.spec_pending() == a.spec_pending() + pending
    &&& b.spec_tickets() == a.spec_tickets()
    &&& b.ticket_entries() == a.ticket_entries()
}

/// `b` is account `a` with its share balances replaced by `shares`.
pub open spec fn shares_set(a: Account, b: Account, shares: Map<u64, Amount>) -> bool {
    &&& b.spec_id() == a.spec_id()
    &&& b.spec_label() == a.spec_label()
    &&& b.spec_tier() == a.spec_tier()
    &&& b.spec_portfolio().shares_view() == shares
    &&& b.spec_portfolio().assets_view() == a.spec_portfolio().assets_view()
    &&& b.spec_portfolio().pending_view() == a.spec_portfolio().pending_view()
}

/// `b` is account `a` with its asset balances replaced by `assets`.
pub open spec fn assets_set(a: Account, b: Account, assets: Map<u64, Amount>) -> bool {
    &&& b.spec_id() == a.spec_id()
    &&& b.spec_label() == a.spec_label()
    &&& b.spec_tier() == a.spec_tier()
    &&& b.spec_portfolio().shares_view() == a.spec_portfolio().shares_view()
    &&& b.spec_portfolio().assets_view() == assets
    &&& b.spec_portfolio().pending_view() == a.spec_portfolio().pending_view()
}

/// The first window of `kind` among `ws` from position `i` on.
pub open spec fn window_from(ws: Seq<(u64, UnlockWindow)>, i: int, kind: WindowKind) -> Option<UnlockWindow>
    decreases ws.len() - i,
{
    if i < 0 || i >= ws.len() {
        None
    } else if ws[i].1.spec_spec().spec_kind() == kind {
        Some(ws[i].1)
    } else {
        window_from(ws, i + 1, kind)
    }
}

/// The window kind that serves a redemption kind.
pub open spec fn window_kind_of(kind: RedemptionKind) -> WindowKind {
    match kind {
        RedemptionKind::Priority => WindowKind::Priority,
        RedemptionKind::Standard => WindowKind::Standard,
    }
}

/// The window a redemption of `kind` goes to: the first window of the
/// matching kind, else the first window, if any.
pub open spec fn window_for(ws: Seq<(u64, UnlockWindow)>, kind: RedemptionKind) -> Option<UnlockWindow> {
    match window_from(ws, 0, window_kind_of(kind)) {
        Some(w) => Some(w),
        None => if ws.len() > 0 { Some(ws[0].1) } else { None },
    }
}

/// The unlock delay a vault's policy sets for redemptions of `kind`.
pub open spec fn policy_delay(v: VaultState, kind: RedemptionKind) -> u64 {
    match kind {
        RedemptionKind::Priority => v.spec_policy().spec_priority().spec_priority_delay(),
        RedemptionKind::Standard => v.spec_policy().spec_priority().spec_standard_delay(),
    }
}

/// The window each kind of redemption goes to carries the unlock delay the
/// vault's policy sets for it.
pub open spec fn windows_follow_policy(v: VaultState) -> bool {
    let ws = v.spec_config().window_entries();
    &&& window_for(ws, RedemptionKind::Priority) is Some
    &&& window_for(ws, RedemptionKind::Priority)->0.spec_spec().spec_unlock_delay() == policy_delay(v, RedemptionKind::Priority)
    &&& window_for(ws, RedemptionKind::Standard) is Some
    &&& window_for(ws, RedemptionKind::Standard)->0.spec_spec().spec_unlock_delay() == policy_delay(v, RedemptionKind::Standard)
}

/// The assets quoted for `shares` of a vault: `shares * liquid /
/// total_shares`, rounded down, where the liquid assets are the reserve
/// less the assets pending for earlier redemptions.
pub open spec fn quote_of(v: VaultState, shares: Amount) -> nat {
    shares@ * v.spec_liquid() / v.spec_total_shares()
}

/// The first vault among `vs`, from position `i` on, holding a ticket with
/// identifier `id`.
pub open spec fn home_from(vs: Seq<(u64, VaultState)>, i: int, id: u64) -> Option<u64>
    decreases vs.len() - i,
{
    if i < 0 || i >= vs.len() {
        None
    } else if vs[i].1.spec_tickets().contains_key(id) {
        Some(vs[i].0)
    } else {
        home_from(vs, i + 1, id)
    }
}

/// The registry `b` is `a` with account number `k` replaced, in place, by
/// `acct`.
pub open spec fn account_replaced(b: AccountRegistry, a: AccountRegistry, k: u64, acct: Account) -> bool {
    &&& b.spec_accounts() == a.spec_accounts().insert(k, acct)
    &&& 0 <= a.position_of(k) < a.spec_entries().len()
    &&& a.spec_entries()[a.position_of(k)].0 == k
    &&& b.spec_entries() == a.spec_entries().update(a.position_of(k), (k, acct))
}

/// The claim a ticket of the standard lane gets once it is scheduled.
pub open spec fn standard_claim(t: RedemptionTicket) -> PriorityClaim {
    PriorityClaim::spec_from_draft(PriorityClaimDraft {
        redemption_id: t.spec_id(),
        account: t.spec_account(),
        vault: t.spec_vault(),
        asset: t.spec_asset(),
        amount: t.spec_quoted(),
        unlock_day: t.spec_unlock_day(),
        window: t.spec_window(),
        lane: Lane::Standard,
    })
}

/// The tickets `m` with those of the served items `s` moved to pending
/// unlock.
pub open spec fn scheduled(m: Map<u64, RedemptionTicket>, s: Seq<QueueItem>) -> Map<u64, RedemptionTicket>
    decreases s.len(),
{
    if s.len() == 0 {
        m
    } else {
        let id = s.last().spec_redemption_id()@;
        scheduled(m, s.drop_last()).insert(id, m[id].with_status(RedemptionStatus::PendingUnlock))
    }
}

/// The claims `c` with one more for each served item of `s` in the
/// standard lane.
pub open spec fn standard_claims(c: Map<u64, PriorityClaim>, m: Map<u64, RedemptionTicket>, s: Seq<QueueItem>) -> Map<u64, PriorityClaim>
    decreases s.len(),
{
    if s.len() == 0 {
        c
    } else {
        let prev = standard_claims(c, m, s.drop_last());
        let id = s.last().spec_redemption_id()@;
        if s.last().spec_lane() is Standard {
            prev.insert(id, standard_claim(m[id]))
        } else {
            prev
        }
    }
}

/// Some item of `s` before position `i` serves the same redemption.
pub open spec fn served_before(s: Seq<QueueItem>, i: int) -> bool {
    exists|j: int| 0 <= j < i && (#[trigger] s[j]).spec_redemption_id() == s[i].spec_redemption_id()
}

/// Served item `i` of `s` cannot be scheduled: its ticket is missing, not
/// queued or already served earlier in `s`, or, in the standard lane, its
/// redemption already has a claim.
pub open spec fn serve_fails(m: Map<u64, RedemptionTicket>, c: Map<u64, PriorityClaim>, s: Seq<QueueItem>, i: int) -> bool {
    let id = s[i].spec_redemption_id()@;
    ||| !m.contains_key(id)
    ||| !(m[id].spec_status() is Queued)
    ||| served_before(s, i)
    ||| (s[i].spec_lane() is Standard && c.contains_key(id))
}

/// The error code scheduling served item `i` of `s` fails with.
pub open spec fn serve_code(m: Map<u64, RedemptionTicket>, s: Seq<QueueItem>, i: int) -> Seq<char> {
    let id = s[i].spec_redemption_id()@;
    if !m.contains_key(id) {
        "missing_ticket"@
    } else if !(m[id].spec_status() is Queued) || served_before(s, i) {
        "invalid_status"@
    } else {
        "invariant"@
    }
}

/// The text of the error that scheduling served item `i` of `s` fails with.
pub open spec fn serve_detail(m: Map<u64, RedemptionTicket>, s: Seq<QueueItem>, i: int) -> Seq<char> {
    let id = s[i].spec_redemption_id()@;
    let verb = transition_verb(RedemptionStatus::PendingUnlock);
    if !m.contains_key(id) {
        "rdm-"@ + decimal(id as nat)
    } else if !(m[id].spec_status() is Queued) {
        m[id].status_detail(verb)
    } else if served_before(s, i) {
        m[id].with_status(RedemptionStatus::PendingUnlock).status_detail(verb)
    } else {
        "claim "@ + "rdm-"@ + decimal(id as nat) + " already exists"@
    }
}

/// The journal entry of a scheduled ticket.
pub open spec fn scheduled_event(t: RedemptionTicket, lane: Lane, id: u64, day: EpochDay) -> EventView {
    EventView {
        account: Some(t.spec_account()),
        vault: Some(t.spec_vault()),
        asset: Some(t.spec_asset()),
        redemption: Some(t.spec_id()),
        amount: Some(t.spec_shares()),
        ..note_event(id, day, EventKind::RedemptionScheduled, lane.spec_label())
    }
}

/// The journal entries of the tickets of `s`, numbered after `last`.
pub open spec fn scheduled_events(m: Map<u64, RedemptionTicket>, s: Seq<QueueItem>, last: u64, day: EpochDay) -> Seq<EventView> {
    Seq::new(s.len(), |i: int| scheduled_event(m[s[i].spec_redemption_id()@], s[i].spec_lane(), (last + 1 + i) as u64, day))
}

/// Scheduling leaves the tickets of redemptions not served alone and moves
/// the served ones to pending unlock.
pub proof fn lemma_scheduled(m: Map<u64, RedemptionTicket>, s: Seq<QueueItem>, x: u64)
    ensures
        (forall|j: int| 0 <= j < s.len() ==> (#[trigger] s[j]).spec_redemption_id()@ != x) ==> scheduled(m, s).contains_key(x)
            == m.contains_key(x) && scheduled(m, s)[x] == m[x],
        (exists|j: int| 0 <= j < s.len() && (#[trigger] s[j]).spec_redemption_id()@ == x) ==> scheduled(m, s).contains_key(x)
            && scheduled(m, s)[x] == m[x].with_status(RedemptionStatus::PendingUnlock),
    decreases s.len(),
{
    if s.len() > 0 {
        lemma_scheduled(m, s.drop_last(), x);
        if exists|j: int| 0 <= j < s.len() && (#[trigger] s[j]).spec_redemption_id()@ == x {
            if s.last().spec_redemption_id()@ != x {
                let j = choose|j: int| 0 <= j < s.len() && (#[trigger] s[j]).spec_redemption_id()@ == x;
                assert(s.drop_last()[j] == s[j]);
            }
        } else {
            assert forall|j: int| 0 <= j < s.drop_last().len() implies (#[trigger] s.drop_last()[j]).spec_redemption_id()@ != x by {
                assert(s.drop_last()[j] == s[j]);
            }
        }
    }
}

/// A redemption not served in `s` gets no new claim.
pub proof fn lemma_standard_claims(c: Map<u64, PriorityClaim>, m: Map<u64, RedemptionTicket>, s: Seq<QueueItem>, x: u64)
    ensures
        (forall|j: int| 0 <= j < s.len() ==> (#[trigger] s[j]).spec_redemption_id()@ != x) ==> standard_claims(c, m, s).contains_key(x)
            == c.contains_key(x) && standard_claims(c, m, s)[x] == c[x],
    decreases s.len(),
{
    if s.len() > 0 {
        if forall|j: int| 0 <= j < s.len() ==> (#[trigger] s[j]).spec_redemption_id()@ != x {
            assert forall|j: int| 0 <= j < s.drop_last().len() implies (#[trigger] s.drop_last()[j]).spec_redemption_id()@ != x by {
                assert(s.drop_last()[j] == s[j]);
            }
        }
        lemma_standard_claims(c, m, s.drop_last(), x);
    }
}

/// A claim after serving `s` is an earlier one or the standard claim of a
/// served ticket.
pub proof fn lemma_standard_claims_in(c: Map<u64, PriorityClaim>, m: Map<u64, RedemptionTicket>, s: Seq<QueueItem>, x: u64)
    requires
        standard_claims(c, m, s).contains_key(x),
    ensures
        (c.contains_key(x) && standard_claims(c, m, s)[x] == c[x]) || (standard_claims(c, m, s)[x] == standard_claim(m[x])
            && exists|j: int| 0 <= j < s.len() && (#[trigger] s[j]).spec_redemption_id()@ == x),
    decreases s.len(),
{
    if s.len() > 0 {
        let prev = standard_claims(c, m, s.drop_last());
        let id = s.last().spec_redemption_id()@;
        if s.last().spec_lane() is Standard && id == x {
            assert(s[s.len() - 1].spec_redemption_id()@ == x);
        } else {
            lemma_standard_claims_in(c, m, s.drop_last(), x);
            if !(c.contains_key(x) && prev[x] == c[x]) {
                let j = choose|j: int| 0 <= j < s.drop_last().len() && (#[trigger] s.drop_last()[j]).spec_redemption_id()@ == x;
                assert(s[j] == s.drop_last()[j]);
            }
        }
    }
}

/// No more items are served than asked for.
pub proof fn lemma_service_len(s: Seq<QueueItem>, n: nat)
    ensures
        service_order(s, n).len() <= n,
        service_order(s, n).len() <= s.len(),
    decreases n,
{
    if n > 0 && s.len() > 0 {
        crate::queue::lemma_next_exists(s);
        lemma_service_len(s.remove(crate::queue::next_index(s)), (n - 1) as nat);
    }
}

/// The total amount of the claims of `s`.
pub open spec fn claims_amount(s: Seq<PriorityClaim>) -> nat
    decreases s.len(),
{
    if s.len() == 0 {
        0
    } else {
        claims_amount(s.drop_last()) + s.last().spec_amount()@
    }
}

/// A ticket that completing its claim leaves withdrawn.
pub open spec fn ends_withdrawn(t: RedemptionTicket) -> bool {
    t.spec_status() is PendingUnlock || t.spec_status() is Withdrawn
}

/// The tickets `m` with those of the claims of `s` that were pending unlock
/// withdrawn.
pub open spec fn swept(m: Map<u64, RedemptionTicket>, s: Seq<PriorityClaim>) -> Map<u64, RedemptionTicket>
    decreases s.len(),
{
    if s.len() == 0 {
        m
    } else {
        let id = s.last().spec_redemption_id()@;
        let prev = swept(m, s.drop_last());
        if m[id].spec_status() is PendingUnlock {
            prev.insert(id, m[id].with_status(RedemptionStatus::Withdrawn))
        } else {
            prev
        }
    }
}

/// The quotes of the tickets of the claims of `s` that were pending unlock.
pub open spec fn swept_quotes(m: Map<u64, RedemptionTicket>, s: Seq<PriorityClaim>) -> nat
    decreases s.len(),
{
    if s.len() == 0 {
        0
    } else {
        let t = m[s.last().spec_redemption_id()@];
        swept_quotes(m, s.drop_last()) + if t.spec_status() is PendingUnlock { t.spec_quoted()@ } else { 0 }
    }
}

/// The shares of the tickets of the claims of `s`, left withdrawn, that
/// count toward the limit bucket of the account, vault and day.
pub open spec fn completed_for(m: Map<u64, RedemptionTicket>, s: Seq<PriorityClaim>, account: AccountId, vault: VaultId, day: EpochDay) -> nat
    decreases s.len(),
{
    if s.len() == 0 {
        0
    } else {
        let t = m[s.last().spec_redemption_id()@];
        completed_for(m, s.drop_last(), account, vault, day) + if ends_withdrawn(t) && t.spec_account() == account
            && t.spec_vault() == vault && t.spec_requested_day() == day {
            t.spec_shares()@
        } else {
            0
        }
    }
}

/// The journal entries of a sweep of the claims `s`, numbered after `last`.
pub open spec fn sweep_events(s: Seq<PriorityClaim>, account: AccountId, vault: VaultId, asset: AssetId, last: u64, day: EpochDay) -> Seq<EventView> {
    Seq::new(s.len(), |i: int| EventView {
        account: Some(account),
        vault: Some(vault),
        asset: Some(asset),
        redemption: Some(s[i].spec_redemption_id()),
        amount: Some(s[i].spec_amount()),
        ..note_event((last + 1 + i) as u64, day, EventKind::WithdrawalCompleted, "account sweep"@)
    })
}

/// The mature claims come in strictly increasing redemption order, at most
/// the last key of the book.
pub proof fn lemma_mature_sorted(s: Seq<(u64, PriorityClaim)>, account: AccountId, vault: VaultId, day: EpochDay)
    requires
        crate::idmap::sorted_keys(s),
        forall|i: int| 0 <= i < s.len() ==> (#[trigger] s[i]).1.spec_redemption_id()@ == s[i].0,
    ensures
        forall|i: int, j: int| 0 <= i < j < mature_claims(s, account, vault, day).len() ==> (#[trigger] mature_claims(s, account, vault, day)[i]).spec_redemption_id()@
            < (#[trigger] mature_claims(s, account, vault, day)[j]).spec_redemption_id()@,
        s.len() > 0 ==> forall|i: int| 0 <= i < mature_claims(s, account, vault, day).len() ==> (#[trigger] mature_claims(s, account, vault, day)[i]).spec_redemption_id()@
            <= s[s.len() - 1].0,
        forall|i: int| 0 <= i < mature_claims(s, account, vault, day).len() ==> (#[trigger] mature_claims(s, account, vault, day)[i]).spec_account() == account
            && mature_claims(s, account, vault, day)[i].spec_vault() == vault,
    decreases s.len(),
{
    if s.len() > 0 {
        let t = s.drop_last();
        assert forall|i: int| 0 <= i < t.len() implies (#[trigger] t[i]).1.spec_redemption_id()@ == t[i].0 by {
            assert(t[i] == s[i]);
        }
        lemma_mature_sorted(t, account, vault, day);
        let rest = mature_claims(t, account, vault, day);
        if t.len() > 0 {
            assert(t[t.len() - 1].0 < s[s.len() - 1].0);
        }
    }
}

/// Each due claim is an entry's claim, pending and due on `day`.
pub proof fn lemma_mature_from(s: Seq<(u64, PriorityClaim)>, account: AccountId, vault: VaultId, day: EpochDay)
    ensures
        forall|i: int| 0 <= i < mature_claims(s, account, vault, day).len() ==> exists|j: int| 0 <= j < s.len()
            && s[j].1 == #[trigger] mature_claims(s, account, vault, day)[i]
            && s[j].1.spec_account() == account && s[j].1.spec_vault() == vault && s[j].1.spec_is_mature(day),
    decreases s.len(),
{
    if s.len() > 0 {
        let t = s.drop_last();
        lemma_mature_from(t, account, vault, day);
        let ms = mature_claims(s, account, vault, day);
        let rest = mature_claims(t, account, vault, day);
        assert forall|i: int| 0 <= i < ms.len() implies exists|j: int| 0 <= j < s.len()
            && s[j].1 == #[trigger] ms[i] && s[j].1.spec_account() == account && s[j].1.spec_vault() == vault
            && s[j].1.spec_is_mature(day) by {
            if i < rest.len() {
                assert(ms[i] == rest[i]);
                let j = choose|j: int| 0 <= j < t.len() && t[j].1 == #[trigger] rest[i]
                    && t[j].1.spec_account() == account && t[j].1.spec_vault() == vault && t[j].1.spec_is_mature(day);
                assert(s[j] == t[j]);
            } else {
                assert(s[s.len() - 1].1 == ms[i]);
            }
        }
    }
}

/// When every swept claim's ticket is pending unlock with the claim's
/// amount as its quote, the quotes swept are the amounts paid.
pub proof fn lemma_swept_quotes(m: Map<u64, RedemptionTicket>, s: Seq<PriorityClaim>)
    requires
        forall|i: int| 0 <= i < s.len() ==> m.contains_key((#[trigger] s[i]).spec_redemption_id()@)
            && m[s[i].spec_redemption_id()@].spec_status() is PendingUnlock
            && m[s[i].spec_redemption_id()@].spec_quoted() == s[i].spec_amount(),
    ensures
        swept_quotes(m, s) == claims_amount(s),
    decreases s.len(),
{
    if s.len() > 0 {
        assert forall|i: int| 0 <= i < s.drop_last().len() implies m.contains_key((#[trigger] s.drop_last()[i]).spec_redemption_id()@)
            && m[s.drop_last()[i].spec_redemption_id()@].spec_status() is PendingUnlock
            && m[s.drop_last()[i].spec_redemption_id()@].spec_quoted() == s.drop_last()[i].spec_amount() by {
            assert(s.drop_last()[i] == s[i]);
        }
        lemma_swept_quotes(m, s.drop_last());
        assert(s.last() == s[s.len() - 1]);
    }
}

/// Sweeping files no ticket but those of `m`.
pub proof fn lemma_swept_dom(m: Map<u64, RedemptionTicket>, s: Seq<PriorityClaim>, x: u64)
    requires
        swept(m, s).contains_key(x),
    ensures
        m.contains_key(x) || exists|j: int| 0 <= j < s.len() && (#[trigger] s[j]).spec_redemption_id()@ == x,
    decreases s.len(),
{
    if s.len() > 0 {
        let id = s.last().spec_redemption_id()@;
        if id == x {
            assert(s[s.len() - 1].spec_redemption_id()@ == x);
        } else {
            lemma_swept_dom(m, s.drop_last(), x);
            if !m.contains_key(x) {
                let j = choose|j: int| 0 <= j < s.drop_last().len() && (#[trigger] s.drop_last()[j]).spec_redemption_id()@ == x;
                assert(s[j] == s.drop_last()[j]);
            }
        }
    }
}

/// Scheduling files no ticket but those of `m`.
pub proof fn lemma_scheduled_dom(m: Map<u64, RedemptionTicket>, s: Seq<QueueItem>, x: u64)
    requires
        scheduled(m, s).contains_key(x),
    ensures
        m.contains_key(x) || exists|j: int| 0 <= j < s.len() && (#[trigger] s[j]).spec_redemption_id()@ == x,
    decreases s.len(),
{
    if s.len() > 0 {
        let id = s.last().spec_redemption_id()@;
        if id == x {
            assert(s[s.len() - 1].spec_redemption_id()@ == x);
        } else {
            lemma_scheduled_dom(m, s.drop_last(), x);
            if !m.contains_key(x) {
                let j = choose|j: int| 0 <= j < s.drop_last().len() && (#[trigger] s.drop_last()[j]).spec_redemption_id()@ == x;
                assert(s[j] == s.drop_last()[j]);
            }
        }
    }
}

/// Sweeping leaves the tickets of other redemptions alone.
pub proof fn lemma_swept(m: Map<u64, RedemptionTicket>, s: Seq<PriorityClaim>, x: u64)
    ensures
        (forall|j: int| 0 <= j < s.len() ==> (#[trigger] s[j]).spec_redemption_id()@ != x) ==> swept(m, s).contains_key(x)
            == m.contains_key(x) && swept(m, s)[x] == m[x],
        (forall|k: u64| #[trigger] m.contains_key(k) ==> swept(m, s).contains_key(k)),
    decreases s.len(),
{
    if s.len() > 0 {
        if forall|j: int| 0 <= j < s.len() ==> (#[trigger] s[j]).spec_redemption_id()@ != x {
            assert forall|j: int| 0 <= j < s.drop_last().len() implies (#[trigger] s.drop_last()[j]).spec_redemption_id()@ != x by {
                assert(s.drop_last()[j] == s[j]);
            }
        }
        lemma_swept(m, s.drop_last(), x);
    }
}

/// Each vault is well formed, filed under its own identifier and has the
/// unlock windows its policy sets, and its tickets carry identifiers the
/// allocator handed out, name the vault and belong to registered accounts.
pub open spec fn vaults_ok(m: Map<u64, VaultState>, ids: IdAllocator, accounts: Map<u64, Account>) -> bool {
    &&& forall|k: u64| #[trigger]
        m.contains_key(k) ==> m[k].wf() && m[k].spec_id()@ == k && k <= ids.last_vault() && windows_follow_policy(m[k])
    &&& forall|k: u64, t: u64|
        m.contains_key(k) && #[trigger] m[k].spec_tickets().contains_key(t) ==> t <= ids.last_redemption()
            && m[k].spec_tickets()[t].spec_vault()@ == k && accounts.contains_key(m[k].spec_tickets()[t].spec_account()@)
}

/// Every ticket of vault `k` has an identifier of at most `n`, names the
/// vault and belongs to one of `accounts`.
pub open spec fn tickets_ok(v: VaultState, k: u64, n: u64, accounts: Map<u64, Account>) -> bool {
    forall|t: u64| #[trigger] v.spec_tickets().contains_key(t) ==> t <= n && v.spec_tickets()[t].spec_vault()@ == k
        && accounts.contains_key(v.spec_tickets()[t].spec_account()@)
}

/// Vault `k` exists and its share supply differs from what the accounts
/// hold.
pub open spec fn supply_gap(vaults: Map<u64, VaultState>, accounts: Seq<(u64, Account)>, k: u64) -> bool {
    vaults.contains_key(k) && vaults[k].spec_total_shares() != held_shares(accounts, k)
}

/// Vault `k` exists and its reserve is below the claims still open on it.
pub open spec fn reserve_gap(vaults: Map<u64, VaultState>, claims: Seq<(u64, PriorityClaim)>, k: u64) -> bool {
    vaults.contains_key(k) && vaults[k].spec_reserve() < owed_claims(claims, k)
}

/// The text of the first failing reconciliation check: share conservation
/// on the vault with the lowest identifier that breaks it, else claim
/// coverage on the lowest such vault.
pub open spec fn reconcile_detail(
    vaults: Map<u64, VaultState>,
    accounts: Seq<(u64, Account)>,
    claims: Seq<(u64, PriorityClaim)>,
) -> Seq<char> {
    if exists|k: u64| #[trigger] supply_gap(vaults, accounts, k) {
        let k = choose|k: u64| #[trigger] supply_gap(vaults, accounts, k)
            && forall|k2: u64| k2 < k ==> !#[trigger] supply_gap(vaults, accounts, k2);
        conservation_detail(k, vaults[k].spec_total_shares(), held_shares(accounts, k))
    } else {
        let k = choose|k: u64| #[trigger] reserve_gap(vaults, claims, k)
            && forall|k2: u64| k2 < k ==> !#[trigger] reserve_gap(vaults, claims, k2);
        coverage_detail(k, vaults[k].spec_reserve(), owed_claims(claims, k))
    }
}

/// The detail names the lowest vault that breaks share conservation.
proof fn lemma_supply_detail(
    vaults: Map<u64, VaultState>,
    accounts: Seq<(u64, Account)>,
    claims: Seq<(u64, PriorityClaim)>,
    k0: u64,
)
    requires
        supply_gap(vaults, accounts, k0),
        forall|k2: u64| k2 < k0 ==> !#[trigger] supply_gap(vaults, accounts, k2),
    ensures
        reconcile_detail(vaults, accounts, claims) == conservation_detail(
            k0,
            vaults[k0].spec_total_shares(),
            held_shares(accounts, k0),
        ),
{
    let kc = choose|k: u64| #[trigger] supply_gap(vaults, accounts, k)
        && forall|k2: u64| k2 < k ==> !#[trigger] supply_gap(vaults, accounts, k2);
    assert(supply_gap(vaults, accounts, kc));
    assert(kc == k0);
}

/// With shares conserved, the detail names the lowest vault whose reserve
/// falls short of its claims.
proof fn lemma_reserve_detail(
    vaults: Map<u64, VaultState>,
    accounts: Seq<(u64, Account)>,
    claims: Seq<(u64, PriorityClaim)>,
    k0: u64,
)
    requires
        forall|k: u64| !#[trigger] supply_gap(vaults, accounts, k),
        reserve_gap(vaults, claims, k0),
        forall|k2: u64| k2 < k0 ==> !#[trigger] reserve_gap(vaults, claims, k2),
    ensures
        reconcile_detail(vaults, accounts, claims) == coverage_detail(
            k0,
            vaults[k0].spec_reserve(),
            owed_claims(claims, k0),
        ),
{
    let kc = choose|k: u64| #[trigger] reserve_gap(vaults, claims, k)
        && forall|k2: u64| k2 < k ==> !#[trigger] reserve_gap(vaults, claims, k2);
    assert(reserve_gap(vaults, claims, kc));
    assert(kc == k0);
}

/// The redemption protocol: assets, accounts, vaults, the redemption queue,
/// claims, daily limits and priority capacity, with an event journal.
#[derive(Debug, Clone)]
pub struct CrownEngine {
    config: EngineConfig,
    clock: Clock,
    ledger: ProtocolLedger,
    assets: AssetRegistry,
    accounts: AccountRegistry,
    vaults: IdMap<VaultState>,
    queue: QueueBook,
    claims: PriorityBook,
    limits: LimitLedger,
    capacity: CapacityLedger,
}

impl CrownEngine {
    pub closed spec fn spec_config(&self) -> EngineConfig {
        self.config
    }

    pub closed spec fn spec_day(&self) -> EpochDay {
        self.clock.spec_day()
    }

    pub closed spec fn spec_ledger(&self) -> ProtocolLedger {
        self.ledger
    }

    pub closed spec fn spec_assets(&self) -> AssetRegistry {
        self.assets
    }

    pub closed spec fn spec_accounts(&self) -> AccountRegistry {
        self.accounts
    }

    /// Vaults by vault number.
    pub closed spec fn spec_vaults(&self) -> Map<u64, VaultState> {
        self.vaults.view()
    }

    /// Vaults in increasing identifier order.
    pub closed spec fn vault_entries(&self) -> Seq<(u64, VaultState)> {
        self.vaults.entries()
    }

    pub closed spec fn spec_queue(&self) -> QueueBook {
        self.queue
    }

    pub closed spec fn spec_claims(&self) -> PriorityBook {
        self.claims
    }

    pub closed spec fn spec_limits(&self) -> LimitLedger {
        self.limits
    }

    pub closed spec fn spec_capacity(&self) -> CapacityLedger {
        self.capacity
    }

    /// Every part is well formed and each vault is filed under its own
    /// identifier.
    pub closed spec fn wf(&self) -> bool {
        &&& self.assets.wf()
        &&& self.accounts.wf()
        &&& self.vaults.wf()
        &&& vaults_ok(self.vaults.view(), self.ledger.spec_allocator(), self.accounts.spec_accounts())
        &&& self.queue.wf()
        &&& self.claims.wf()
        &&& self.limits.wf()
        &&& self.capacity.wf()
        &&& self.fresh_ids()
    }

    /// Every identifier in use was handed out by the allocator.
    pub open spec fn fresh_ids(&self) -> bool {
        &&& forall|k: u64| #[trigger] self.spec_assets().spec_assets().contains_key(k) ==> k <= self.ids().last_asset()
        &&& forall|k: u64| #[trigger] self.spec_accounts().spec_accounts().contains_key(k) ==> k <= self.ids().last_account()
        &&& forall|t: u64| #[trigger] self.spec_claims().spec_claims().contains_key(t) ==> t <= self.ids().last_redemption()
        &&& forall|v: VaultId| #[trigger] self.spec_queue().spec_sequence(v) <= self.ids().last_redemption()
        &&& forall|v: VaultId, i: int| 0 <= i < self.spec_queue().spec_items(v).len()
            ==> (#[trigger] self.spec_queue().spec_items(v)[i]).spec_redemption_id()@ <= self.ids().last_redemption()
    }

    pub open spec fn ids(&self) -> IdAllocator {
        self.spec_ledger().spec_allocator()
    }

    /// The journal can number `n` more entries.
    pub open spec fn journal_room(&self, n: nat) -> bool {
        self.spec_ledger().spec_allocator().last_journal() + n <= u64::MAX
    }

    pub open spec fn last_journal(&self) -> u64 {
        self.spec_ledger().spec_allocator().last_journal()
    }

    pub open spec fn spec_events(&self) -> Seq<EventView> {
        self.spec_ledger().spec_events()
    }

    /// No account-held total, asset-held total or open-claim total exceeds
    /// the largest amount.
    pub open spec fn totals_fit(&self) -> bool {
        forall|k: u64|
            #![trigger held_shares(self.spec_accounts().spec_entries(), k)]
            #![trigger held_assets(self.spec_accounts().spec_entries(), k)]
            #![trigger owed_claims(self.spec_claims().claim_entries(), k)]
            held_shares(self.spec_accounts().spec_entries(), k) <= amount_max()
                && held_assets(self.spec_accounts().spec_entries(), k) <= amount_max()
                && owed_claims(self.spec_claims().claim_entries(), k) <= amount_max()
    }

    /// Accounts hold exactly the share supply of each vault, and no shares
    /// of a vault that does not exist.
    pub open spec fn shares_balanced(&self) -> bool {
        forall|k: u64| #[trigger] held_shares(self.spec_accounts().spec_entries(), k) == self.supply(k)
    }

    /// The share supply of vault number `k`, zero when there is no such
    /// vault.
    pub open spec fn supply(&self, k: u64) -> nat {
        if self.spec_vaults().contains_key(k) {
            self.spec_vaults()[k].spec_total_shares()
        } else {
            0
        }
    }

    /// With the same holdings and supplies, accounts and supplies stay
    /// balanced.
    proof fn lemma_balanced_keep(&self, pre: &Self)
        requires
            pre.shares_balanced(),
            forall|x: u64| #[trigger] held_shares(self.spec_accounts().spec_entries(), x) == held_shares(pre.spec_accounts().spec_entries(), x),
            forall|k: u64| #[trigger] self.supply(k) == pre.supply(k),
        ensures
            self.shares_balanced(),
    {
        assert forall|k: u64| #[trigger] held_shares(self.spec_accounts().spec_entries(), k) == self.supply(k) by {
            assert(held_shares(pre.spec_accounts().spec_entries(), k) == pre.supply(k));
        }
    }

    /// Replacing an account by one with the same share balances keeps every
    /// holding.
    proof fn lemma_held_same(&self, pre: &Self, ak: u64)
        requires
            pre.wf(),
            account_replaced(self.spec_accounts(), pre.spec_accounts(), ak, self.spec_accounts().spec_accounts()[ak]),
            self.spec_accounts().spec_accounts()[ak].spec_portfolio().shares_view() == pre.spec_accounts().spec_accounts()[ak].spec_portfolio().shares_view(),
        ensures
            forall|x: u64| #[trigger] held_shares(self.spec_accounts().spec_entries(), x) == held_shares(pre.spec_accounts().spec_entries(), x),
    {
        let s = pre.spec_accounts().spec_entries();
        let p = pre.spec_accounts().position_of(ak);
        let na = self.spec_accounts().spec_accounts()[ak];
        pre.spec_accounts().lemma_wf_entry(p);
        assert forall|x: u64| #[trigger] held_shares(self.spec_accounts().spec_entries(), x) == held_shares(pre.spec_accounts().spec_entries(), x) by {
            crate::idmap::lemma_sum_update(s, p, (ak, na), |a: Account| balance_of(a.spec_portfolio().shares_view(), x));
        }
    }

    /// Replacing an account by one with the same asset balances keeps every
    /// asset holding.
    proof fn lemma_assets_same(&self, pre: &Self, ak: u64)
        requires
            pre.wf(),
            account_replaced(self.spec_accounts(), pre.spec_accounts(), ak, self.spec_accounts().spec_accounts()[ak]),
            self.spec_accounts().spec_accounts()[ak].spec_portfolio().assets_view() == pre.spec_accounts().spec_accounts()[ak].spec_portfolio().assets_view(),
        ensures
            forall|x: u64| #[trigger] held_assets(self.spec_accounts().spec_entries(), x) == held_assets(pre.spec_accounts().spec_entries(), x),
    {
        let s = pre.spec_accounts().spec_entries();
        let p = pre.spec_accounts().position_of(ak);
        let na = self.spec_accounts().spec_accounts()[ak];
        pre.spec_accounts().lemma_wf_entry(p);
        assert forall|x: u64| #[trigger] held_assets(self.spec_accounts().spec_entries(), x) == held_assets(pre.spec_accounts().spec_entries(), x) by {
            crate::idmap::lemma_sum_update(s, p, (ak, na), |a: Account| balance_of(a.spec_portfolio().assets_view(), x));
        }
    }

    /// Moving `delta` shares of vault `vk` into account `ak`'s balance and
    /// the vault's supply alike keeps accounts and supplies balanced.
    proof fn lemma_balanced_move(&self, pre: &Self, ak: u64, vk: u64, delta: int)
        requires
            pre.wf(),
            pre.shares_balanced(),
            pre.spec_vaults().contains_key(vk),
            account_replaced(self.spec_accounts(), pre.spec_accounts(), ak, self.spec_accounts().spec_accounts()[ak]),
            forall|x: u64| #[trigger] balance_of(self.spec_accounts().spec_accounts()[ak].spec_portfolio().shares_view(), x)
                == balance_of(pre.spec_accounts().spec_accounts()[ak].spec_portfolio().shares_view(), x) + if x == vk { delta } else { 0 },
            self.spec_vaults() == pre.spec_vaults().insert(vk, self.spec_vaults()[vk]),
            self.spec_vaults()[vk].spec_total_shares() == pre.spec_vaults()[vk].spec_total_shares() + delta,
        ensures
            self.shares_balanced(),
    {
        let s = pre.spec_accounts().spec_entries();
        let p = pre.spec_accounts().position_of(ak);
        let na = self.spec_accounts().spec_accounts()[ak];
        pre.spec_accounts().lemma_wf_entry(p);
        assert forall|k: u64| #[trigger] held_shares(self.spec_accounts().spec_entries(), k) == if self.spec_vaults().contains_key(k) {
            self.spec_vaults()[k].spec_total_shares()
        } else {
            0
        } by {
            crate::idmap::lemma_sum_update(s, p, (ak, na), |a: Account| balance_of(a.spec_portfolio().shares_view(), k));
            assert(held_shares(pre.spec_accounts().spec_entries(), k) == if pre.spec_vaults().contains_key(k) {
                pre.spec_vaults()[k].spec_total_shares()
            } else {
                0
            });
        }
    }

    /// Each vault's share supply equals the shares its accounts hold.
    pub open spec fn conserved(&self) -> bool {
        forall|k: u64| #[trigger]
            self.spec_vaults().contains_key(k) ==> self.spec_vaults()[k].spec_total_shares()
                == held_shares(self.spec_accounts().spec_entries(), k)
    }

    /// Each vault's reserve covers its open claims.
    pub open spec fn covered(&self) -> bool {
        forall|k: u64| #[trigger]
            self.spec_vaults().contains_key(k) ==> self.spec_vaults()[k].spec_reserve()
                >= owed_claims(self.spec_claims().claim_entries(), k)
    }

    /// Every pending claim is backed by its ticket: the ticket is filed in
    /// the claim's vault under the claim's identifier, its quote is the
    /// claim's amount, and it is still open while the claim owes anything.
    pub open spec fn claims_backed(&self) -> bool {
        forall|t: u64| #[trigger] self.spec_claims().spec_claims().contains_key(t)
            && self.spec_claims().spec_claims()[t].spec_state() is Pending ==> {
            let c = self.spec_claims().spec_claims()[t];
            let k = c.spec_vault()@;
            &&& self.spec_vaults().contains_key(k)
            &&& self.spec_vaults()[k].spec_tickets().contains_key(t)
            &&& self.spec_vaults()[k].spec_tickets()[t].spec_quoted() == c.spec_amount()
            &&& c.spec_amount()@ > 0 ==> self.spec_vaults()[k].spec_tickets()[t].spec_status().spec_may_cancel()
        }
    }

    /// Each vault's pending assets stay within its reserve.
    pub open spec fn reserves_hold(&self) -> bool {
        forall|k: u64| #[trigger] self.spec_vaults().contains_key(k) ==> self.spec_vaults()[k].spec_pending()
            <= self.spec_vaults()[k].spec_reserve()
    }

    /// The engine owes nothing it cannot pay: every pending claim is backed
    /// by an open ticket with the same quote, every vault's pending assets
    /// stay within its reserve, and no ticket is filed in two vaults.
    pub open spec fn backed(&self) -> bool {
        self.claims_backed() && self.reserves_hold() && self.tickets_unique()
    }

    /// No ticket identifier is filed in two vaults.
    pub open spec fn tickets_unique(&self) -> bool {
        forall|k1: u64, k2: u64, t: u64|
            #![trigger self.spec_vaults()[k1].spec_tickets().contains_key(t), self.spec_vaults()[k2].spec_tickets().contains_key(t)]
            self.spec_vaults().contains_key(k1) && self.spec_vaults().contains_key(k2)
                && self.spec_vaults()[k1].spec_tickets().contains_key(t) && self.spec_vaults()[k2].spec_tickets().contains_key(t)
                ==> k1 == k2
    }

    /// Replacing one vault by one whose tickets are its own, and perhaps one
    /// identifier no other vault holds, keeps ticket identifiers unique.
    proof fn lemma_unique_from(&self, pre: &Self, k0: u64, extra: Option<u64>)
        requires
            pre.tickets_unique(),
            pre.spec_vaults().contains_key(k0),
            self.spec_vaults() == pre.spec_vaults().insert(k0, self.spec_vaults()[k0]),
            forall|t: u64| #[trigger] self.spec_vaults()[k0].spec_tickets().contains_key(t)
                ==> pre.spec_vaults()[k0].spec_tickets().contains_key(t) || extra == Some(t),
            extra matches Some(x) ==> forall|k: u64| #[trigger] pre.spec_vaults().contains_key(k) && k != k0
                ==> !pre.spec_vaults()[k].spec_tickets().contains_key(x),
        ensures
            self.tickets_unique(),
    {
        assert forall|k1: u64, k2: u64, t: u64|
            self.spec_vaults().contains_key(k1) && self.spec_vaults().contains_key(k2)
                && #[trigger] self.spec_vaults()[k1].spec_tickets().contains_key(t)
                && #[trigger] self.spec_vaults()[k2].spec_tickets().contains_key(t) implies k1 == k2 by {
            assert(pre.spec_vaults().contains_key(k1) && pre.spec_vaults().contains_key(k2));
            if k1 != k0 && k2 != k0 {
                assert(pre.spec_vaults()[k1].spec_tickets().contains_key(t));
                assert(pre.spec_vaults()[k2].spec_tickets().contains_key(t));
            } else if k1 == k0 && k2 != k0 {
                assert(pre.spec_vaults()[k2].spec_tickets().contains_key(t));
                if pre.spec_vaults()[k0].spec_tickets().contains_key(t) {
                    assert(pre.spec_vaults()[k1].spec_tickets().contains_key(t));
                }
            } else if k2 == k0 && k1 != k0 {
                assert(pre.spec_vaults()[k1].spec_tickets().contains_key(t));
                if pre.spec_vaults()[k0].spec_tickets().contains_key(t) {
                    assert(pre.spec_vaults()[k2].spec_tickets().contains_key(t));
                }
            }
        }
    }

    /// The claims still open on a vault are matched by its open tickets, so
    /// they never exceed the quotes of those tickets, which the pending
    /// assets cover.
    pub proof fn lemma_owed_within_open(&self, k: u64)
        requires
            self.wf(),
            self.claims_backed(),
            self.spec_vaults().contains_key(k),
        ensures
            owed_claims(self.spec_claims().claim_entries(), k) <= open_quotes(self.spec_vaults()[k].ticket_entries()),
            open_quotes(self.spec_vaults()[k].ticket_entries()) <= self.spec_vaults()[k].spec_pending(),
    {
        self.lemma_wf_parts();
        let v = self.spec_vaults()[k];
        self.lemma_vault_ids(k);
        v.lemma_wf();
        v.lemma_sorted();
        v.lemma_pending_covers_open_tickets();
        let s = self.spec_claims().claim_entries();
        self.spec_claims().lemma_entries();
        self.spec_claims().lemma_wf();
        let te = v.ticket_entries();
        let f = |c: PriorityClaim| owed_to(c, k);
        let g = |tk: RedemptionTicket| open_quote(tk);
        let claims = self.spec_claims().spec_claims();
        assert forall|i: int| 0 <= i < s.len() && f(#[trigger] s[i].1) > 0 implies exists|j: int|
            0 <= j < te.len() && te[j].0 == s[i].0 && g(#[trigger] te[j].1) == f(s[i].1) by {
            let id = s[i].0;
            assert(claims.contains_key(id) && claims[id] == s[i].1);
            let j = v.lemma_ticket_at(id);
            assert(g(te[j].1) == f(s[i].1));
        }
        crate::idmap::lemma_sum_matched(s, te, f, g);
    }

    /// No claim owes anything to a vault that does not exist.
    proof fn lemma_owed_none(&self, k: u64)
        requires
            self.wf(),
            self.claims_backed(),
            !self.spec_vaults().contains_key(k),
        ensures
            owed_claims(self.spec_claims().claim_entries(), k) == 0,
    {
        self.lemma_wf_parts();
        self.spec_claims().lemma_wf();
        let s = self.spec_claims().claim_entries();
        let claims = self.spec_claims().spec_claims();
        let f = |c: PriorityClaim| owed_to(c, k);
        assert forall|i: int| 0 <= i < s.len() implies f(#[trigger] s[i].1) == 0 by {
            assert(claims.contains_key(s[i].0) && claims[s[i].0] == s[i].1);
        }
        crate::idmap::lemma_sum_zero(s, f);
    }

    /// The engine is consistent: it is backed, and its accounts hold
    /// exactly each vault's share supply.
    pub open spec fn consistent(&self) -> bool {
        self.backed() && self.shares_balanced()
    }

    /// A consistent engine keeps its share supplies and covers its claims,
    /// so it passes the reconciliation checks exactly when its totals fit.
    pub proof fn lemma_consistent_checks(&self)
        requires
            self.wf(),
            self.consistent(),
        ensures
            self.conserved(),
            self.covered(),
            self.passes_checks() <==> (!self.spec_config().spec_invariant_checks() || self.totals_fit()),
    {
        self.lemma_backed_covered();
        assert forall|k: u64| #[trigger] self.spec_vaults().contains_key(k) implies self.spec_vaults()[k].spec_total_shares()
            == held_shares(self.spec_accounts().spec_entries(), k) by {
            assert(held_shares(self.spec_accounts().spec_entries(), k) == self.supply(k));
        }
    }

    /// A consistent engine whose asset holdings are those of a state that
    /// passed the reconciliation checks passes them too.
    proof fn lemma_consistent_passes(&self, pre: &Self)
        requires
            self.wf(),
            self.consistent(),
            pre.passes_checks(),
            self.spec_config() == pre.spec_config(),
            forall|x: u64| #[trigger] held_assets(self.spec_accounts().spec_entries(), x) == held_assets(pre.spec_accounts().spec_entries(), x),
        ensures
            self.passes_checks(),
    {
        self.lemma_backed_covered();
        if self.spec_config().spec_invariant_checks() {
            assert forall|k: u64|
                #![trigger held_shares(self.spec_accounts().spec_entries(), k)]
                #![trigger held_assets(self.spec_accounts().spec_entries(), k)]
                #![trigger owed_claims(self.spec_claims().claim_entries(), k)]
                held_shares(self.spec_accounts().spec_entries(), k) <= amount_max()
                    && held_assets(self.spec_accounts().spec_entries(), k) <= amount_max()
                    && owed_claims(self.spec_claims().claim_entries(), k) <= amount_max() by {
                assert(held_shares(self.spec_accounts().spec_entries(), k) == self.supply(k));
                if self.spec_vaults().contains_key(k) {
                    self.spec_vaults()[k].lemma_bounded();
                }
                assert(held_assets(pre.spec_accounts().spec_entries(), k) <= amount_max());
            }
            assert forall|k: u64| #[trigger] self.spec_vaults().contains_key(k) implies self.spec_vaults()[k].spec_total_shares()
                == held_shares(self.spec_accounts().spec_entries(), k) by {
                assert(held_shares(self.spec_accounts().spec_entries(), k) == self.supply(k));
            }
        }
    }

    /// A backed engine covers every vault's open claims with its reserve.
    pub proof fn lemma_backed_covered(&self)
        requires
            self.wf(),
            self.backed(),
        ensures
            self.covered(),
            forall|k: u64| #[trigger] owed_claims(self.spec_claims().claim_entries(), k) <= amount_max(),
    {
        assert forall|k: u64| #[trigger] self.spec_vaults().contains_key(k) implies self.spec_vaults()[k].spec_reserve()
            >= owed_claims(self.spec_claims().claim_entries(), k) by {
            self.lemma_owed_within_open(k);
        }
        assert forall|k: u64| #[trigger] owed_claims(self.spec_claims().claim_entries(), k) <= amount_max() by {
            if self.spec_vaults().contains_key(k) {
                self.lemma_owed_within_open(k);
                self.spec_vaults()[k].lemma_bounded();
            } else {
                self.lemma_owed_none(k);
            }
        }
    }

    /// Vault `k` exists and its share supply differs from what accounts hold.
    pub open spec fn conservation_gap(&self, k: u64) -> bool {
        supply_gap(self.spec_vaults(), self.spec_accounts().spec_entries(), k)
    }

    /// Vault `k` exists and its reserve is below its open claims.
    pub open spec fn coverage_gap(&self, k: u64) -> bool {
        reserve_gap(self.spec_vaults(), self.spec_claims().claim_entries(), k)
    }

    /// The text of the first failing reconciliation check.
    pub open spec fn check_detail(&self) -> Seq<char> {
        reconcile_detail(self.spec_vaults(), self.spec_accounts().spec_entries(), self.spec_claims().claim_entries())
    }

    /// The reconciliation checks pass, or are switched off.
    pub open spec fn passes_checks(&self) -> bool {
        !self.spec_config().spec_invariant_checks() || (self.totals_fit() && self.conserved()
            && self.covered())
    }

    /// How many check entries the reconciliation adds to the journal.
    pub open spec fn check_event_count(&self) -> nat {
        if !self.spec_config().spec_invariant_checks() || !self.totals_fit() || !self.conserved() {
            0
        } else if !self.covered() {
            1
        } else {
            2
        }
    }

    /// Everything but the ledger is the same.
    pub open spec fn same_except_ledger(&self, other: &Self) -> bool {
        &&& self.spec_config() == other.spec_config()
        &&& self.spec_day() == other.spec_day()
        &&& self.spec_assets() == other.spec_assets()
        &&& self.spec_accounts() == other.spec_accounts()
        &&& self.spec_vaults() == other.spec_vaults()
        &&& self.vault_entries() == other.vault_entries()
        &&& self.spec_queue() == other.spec_queue()
        &&& self.spec_claims() == other.spec_claims()
        &&& self.spec_limits() == other.spec_limits()
        &&& self.spec_capacity() == other.spec_capacity()
    }

    /// The ledger of `self` is that of `other` after `n` reconciliation
    /// entries were recorded on `day`.
    pub open spec fn checks_logged(&self, other: &Self, n: nat) -> bool {
        &&& self.spec_ledger().same_ids_except(&other.spec_ledger(), "journal"@)
        &&& self.last_journal() == other.last_journal() + n
        &&& self.spec_events() == other.spec_events() + check_events(other.spec_day(), other.last_journal(), n)
    }

    /// Changing only the ledger, without taking identifiers back, keeps the
    /// engine well formed.
    proof fn lemma_wf_from(&self, other: &Self)
        requires
            other.wf(),
            self.ids().last_asset() >= other.ids().last_asset(),
            self.ids().last_account() >= other.ids().last_account(),
            self.ids().last_vault() >= other.ids().last_vault(),
            self.ids().last_redemption() >= other.ids().last_redemption(),
            self.spec_assets() == other.spec_assets() || (self.assets.wf() && forall|k: u64| #[trigger]
                self.spec_assets().spec_assets().contains_key(k) ==> k <= self.ids().last_asset()),
            self.spec_accounts() == other.spec_accounts() || (self.accounts.wf()
                && self.spec_accounts().spec_accounts().dom() == other.spec_accounts().spec_accounts().dom())
                || (self.accounts.wf() && forall|k: u64| #[trigger]
                self.spec_accounts().spec_accounts().contains_key(k) ==> k <= self.ids().last_account()),
            (self.spec_vaults() == other.spec_vaults() && self.vault_entries() == other.vault_entries()) || (
            self.vaults.wf() && vaults_ok(self.vaults.view(), self.ids(), self.spec_accounts().spec_accounts())),
            self.spec_queue() == other.spec_queue() || (self.queue.wf() && (forall|v: VaultId| #[trigger]
                self.spec_queue().spec_sequence(v) <= self.ids().last_redemption()) && forall|v: VaultId, i: int|
                0 <= i < self.spec_queue().spec_items(v).len() ==> (#[trigger] self.spec_queue().spec_items(v)[i]).spec_redemption_id()@
                <= self.ids().last_redemption()),
            self.spec_claims() == other.spec_claims() || (self.claims.wf() && forall|t: u64| #[trigger]
                self.spec_claims().spec_claims().contains_key(t) ==> t <= self.ids().last_redemption()),
            self.limits.wf(),
            self.capacity.wf(),
            other.spec_accounts().spec_accounts().dom().subset_of(self.spec_accounts().spec_accounts().dom()),
        ensures
            self.wf(),
    {
        lemma_counter_names();
        if self.spec_assets() == other.spec_assets() {
            assert forall|k: u64| #[trigger] self.spec_assets().spec_assets().contains_key(k) implies k <= self.ids().last_asset() by {
                assert(other.spec_assets().spec_assets().contains_key(k));
            }
        }
        if self.spec_accounts() == other.spec_accounts() || self.spec_accounts().spec_accounts().dom() == other.spec_accounts().spec_accounts().dom() {
            assert forall|k: u64| #[trigger] self.spec_accounts().spec_accounts().contains_key(k) implies k <= self.ids().last_account() by {
                assert(self.spec_accounts().spec_accounts().dom().contains(k));
                assert(other.spec_accounts().spec_accounts().contains_key(k));
            }
        }
        if self.spec_vaults() == other.spec_vaults() && self.vault_entries() == other.vault_entries() {
            assert forall|k: u64, t: u64|
                self.spec_vaults().contains_key(k) && #[trigger] self.spec_vaults()[k].spec_tickets().contains_key(t)
                    implies t <= self.ids().last_redemption() && self.spec_vaults()[k].spec_tickets()[t].spec_vault()@ == k
                    && self.spec_accounts().spec_accounts().contains_key(self.spec_vaults()[k].spec_tickets()[t].spec_account()@) by {
                assert(other.spec_vaults()[k].spec_tickets().contains_key(t));
                assert(other.spec_accounts().spec_accounts().dom().contains(other.spec_vaults()[k].spec_tickets()[t].spec_account()@));
            }
        }
        if self.spec_queue() == other.spec_queue() {
            assert forall|v: VaultId| #[trigger] self.spec_queue().spec_sequence(v) <= self.ids().last_redemption() by {
                assert(other.spec_queue().spec_sequence(v) <= other.ids().last_redemption());
            }
            assert forall|v: VaultId, i: int| 0 <= i < self.spec_queue().spec_items(v).len() implies
                (#[trigger] self.spec_queue().spec_items(v)[i]).spec_redemption_id()@ <= self.ids().last_redemption() by {
                assert(other.spec_queue().spec_items(v)[i].spec_redemption_id()@ <= other.ids().last_redemption());
            }
        }
        if self.spec_claims() == other.spec_claims() {
            assert forall|t: u64| #[trigger] self.spec_claims().spec_claims().contains_key(t) implies t <= self.ids().last_redemption() by {
                assert(other.spec_claims().spec_claims().contains_key(t));
            }
        }
    }

    /// The reconciliation outcome depends on the balances only, not on the
    /// ledger.
    proof fn lemma_checks_same(&self, other: &Self)
        requires
            self.same_except_ledger(other),
        ensures
            self.totals_fit() == other.totals_fit(),
            self.conserved() == other.conserved(),
            self.covered() == other.covered(),
            self.passes_checks() == other.passes_checks(),
            self.check_event_count() == other.check_event_count(),
            self.shares_balanced() == other.shares_balanced(),
            self.check_detail() == other.check_detail(),
    {
    }

    /// The effect of a request is read off the balances, not the ledger.
    proof fn lemma_request_applied_ledger(&self, mid: &Self, pre: &Self, account: AccountId, vault: VaultId, shares: Amount, kind: RedemptionKind)
        requires
            mid.request_applied(pre, account, vault, shares, kind),
            self.same_except_ledger(mid),
        ensures
            self.request_applied(pre, account, vault, shares, kind),
    {
    }

    proof fn lemma_cancel_applied_ledger(&self, mid: &Self, pre: &Self, redemption_id: RedemptionId)
        requires
            mid.cancel_applied(pre, redemption_id),
            self.same_except_ledger(mid),
        ensures
            self.cancel_applied(pre, redemption_id),
    {
    }

    /// A vault's tickets carry identifiers the allocator handed out.
    proof fn lemma_vault_ids(&self, k: u64)
        requires
            self.wf(),
            self.spec_vaults().contains_key(k),
        ensures
            tickets_ok(self.spec_vaults()[k], k, self.ids().last_redemption(), self.spec_accounts().spec_accounts()),
            self.spec_vaults()[k].wf(),
            self.spec_vaults()[k].spec_id()@ == k,
    {
        assert forall|t: u64| #[trigger] self.spec_vaults()[k].spec_tickets().contains_key(t) implies t
            <= self.ids().last_redemption() by {
        }
    }

    proof fn lemma_vault_entry(&self, i: int)
        requires
            self.wf(),
            0 <= i < self.vault_entries().len(),
        ensures
            self.spec_vaults().contains_key(self.vault_entries()[i].0),
            self.spec_vaults()[self.vault_entries()[i].0] == self.vault_entries()[i].1,
            self.vault_entries()[i].1.wf(),
            self.vault_entries()[i].1.spec_id()@ == self.vault_entries()[i].0,
    {
        self.vaults.lemma_entry(i);
    }

    /// The parts of a well-formed engine are well formed, and each vault
    /// entry is the vault filed under its identifier.
    pub proof fn lemma_wf_parts(&self)
        requires
            self.wf(),
        ensures
            self.spec_accounts().wf(),
            self.spec_claims().wf(),
            self.spec_queue().wf(),
            forall|i: int| 0 <= i < self.vault_entries().len() ==> (#[trigger] self.vault_entries()[i]).1.wf()
                && self.vault_entries()[i].1.spec_id()@ == self.vault_entries()[i].0
                && self.spec_vaults().contains_key(self.vault_entries()[i].0)
                && self.spec_vaults()[self.vault_entries()[i].0] == self.vault_entries()[i].1,
    {
        assert forall|i: int| 0 <= i < self.vault_entries().len() implies (#[trigger] self.vault_entries()[i]).1.wf()
            && self.vault_entries()[i].1.spec_id()@ == self.vault_entries()[i].0
            && self.spec_vaults().contains_key(self.vault_entries()[i].0)
            && self.spec_vaults()[self.vault_entries()[i].0] == self.vault_entries()[i].1 by {
            self.lemma_vault_entry(i);
        }
    }

    pub fn new(config: EngineConfig) -> (r: Self)
        ensures
            r.wf(),
            r.shares_balanced(),
            r.backed(),
            r.spec_config() == config,
            r.spec_day()@ == 0,
            r.spec_vaults() == Map::<u64, VaultState>::empty(),
            r.vault_entries().len() == 0,
            r.spec_accounts().spec_entries().len() == 0,
            r.spec_accounts().spec_accounts() == Map::<u64, Account>::empty(),
            r.spec_assets().spec_entries().len() == 0,
            r.spec_assets().spec_assets() == Map::<u64, AssetMetadata>::empty(),
            r.spec_claims().claim_entries().len() == 0,
            r.spec_claims().spec_claims() == Map::<u64, PriorityClaim>::empty(),
            forall|v: VaultId| #[trigger] r.spec_queue().spec_items(v).len() == 0 && r.spec_queue().spec_sequence(v) == 0,
            forall|a: AccountId, v: VaultId, d: EpochDay| #[trigger] r.spec_limits().spec_bucket(a, v, d).spec_requested() == 0
                && r.spec_limits().spec_bucket(a, v, d).spec_released() == 0
                && r.spec_limits().spec_bucket(a, v, d).spec_completed() == 0,
            forall|v: VaultId, d: EpochDay| #[trigger] r.spec_capacity().spec_bucket(v, d).spec_consumed() == 0
                && r.spec_capacity().spec_bucket(v, d).spec_released() == 0,
            r.spec_events().len() == 0,
            r.spec_ledger().spec_allocator().last_account() == 0,
            r.spec_ledger().spec_allocator().last_asset() == 0,
            r.spec_ledger().spec_allocator().last_vault() == 0,
            r.spec_ledger().spec_allocator().last_redemption() == 0,
            r.spec_ledger().spec_allocator().last_window() == 0,
            r.last_journal() == 0,
    {
        let r = CrownEngine {
            config,
            clock: Clock::new(EpochDay::new(0)),
            ledger: ProtocolLedger::new(),
            assets: AssetRegistry::new(),
            accounts: AccountRegistry::new(),
            vaults: IdMap::new(),
            queue: QueueBook::new(),
            claims: PriorityBook::new(),
            limits: LimitLedger::new(),
            capacity: CapacityLedger::new(),
        };
        proof {
            assert forall|v: VaultId| #[trigger] r.spec_queue().spec_sequence(v) <= r.ids().last_redemption() by {
                assert(r.queue.spec_items(v).len() == 0);
            }
        }
        r
    }

    /// Sums what accounts hold and what open claims owe, per vault and asset.
    fn collect_totals(&self) -> (r: CrownResult<LedgerTotals>)
        requires
            self.wf(),
        ensures
            !self.totals_fit() ==> (r matches Err(e) && e is Arithmetic && e.spec_detail() == "amount addition overflow"@),
            self.totals_fit() ==> (r matches Ok(t) && t.wf() && (shares_conserved(t) <==> self.conserved())
                && (claims_covered(t) <==> self.covered())
                && (forall|k: u64| #[trigger] conservation_gap(t, k) <==> self.conservation_gap(k))
                && (forall|k: u64| #[trigger] coverage_gap(t, k) <==> self.coverage_gap(k))
                && (forall|k: u64| #[trigger] self.spec_vaults().contains_key(k) ==> t.vault_shares_view()[k]@
                    == self.spec_vaults()[k].spec_total_shares() && t.reserves_view()[k]@ == self.spec_vaults()[k].spec_reserve()
                    && balance_of(t.account_shares_view(), k) == held_shares(self.spec_accounts().spec_entries(), k)
                    && balance_of(t.open_claims_view(), k) == owed_claims(self.spec_claims().claim_entries(), k))),
    {
        let mut totals = LedgerTotals::new();
        let n = self.vaults.len();
        let mut i: usize = 0;
        while i < n
            invariant
                self.wf(),
                totals.wf(),
                n == self.vault_entries().len(),
                i <= n,
                forall|k: u64| #[trigger] totals.reserves_view().contains_key(k) ==> self.spec_vaults().contains_key(k)
                    && totals.reserves_view()[k]@ == self.spec_vaults()[k].spec_reserve(),
                forall|k: u64| #[trigger] totals.vault_shares_view().contains_key(k) ==> self.spec_vaults().contains_key(k)
                    && totals.vault_shares_view()[k]@ == self.spec_vaults()[k].spec_total_shares(),
                forall|j: int| 0 <= j < i ==> totals.reserves_view().contains_key(#[trigger] self.vault_entries()[j].0)
                    && totals.vault_shares_view().contains_key(self.vault_entries()[j].0),
                totals.account_shares_view() == Map::<u64, Amount>::empty(),
                totals.account_assets_view() == Map::<u64, Amount>::empty(),
                totals.open_claims_view() == Map::<u64, Amount>::empty(),
            decreases n - i,
        {
            let (k, vault) = self.vaults.entry_at(i);
            proof { self.lemma_vault_entry(i as int); }
            totals.set_vault_reserve(vault.id(), vault.reserve_assets());
            totals.set_vault_shares(vault.id(), vault.total_shares());
            i = i + 1;
        }
        let ghost reserves = totals.reserves_view();
        let ghost supplies = totals.vault_shares_view();
        proof {
            assert forall|k: u64| #[trigger] self.spec_vaults().contains_key(k) implies reserves.contains_key(k)
                && supplies.contains_key(k) by {
                let j = self.vaults.lemma_key(k);
                assert(totals.reserves_view().contains_key(self.vault_entries()[j].0));
            }
        }
        let ghost s = self.accounts.spec_entries();
        proof { self.accounts.lemma_wf(); }
        let accounts = self.accounts.all();
        let mut i: usize = 0;
        while i < accounts.len()
            invariant
                self.wf(),
                totals.wf(),
                s == self.accounts.spec_entries(),
                accounts@.len() == s.len(),
                forall|j: int| 0 <= j < accounts@.len() ==> *(#[trigger] accounts@[j]) == s[j].1,
                forall|j: int| 0 <= j < s.len() ==> (#[trigger] s[j]).1.wf(),
                i <= s.len(),
                totals.reserves_view() == reserves,
                totals.vault_shares_view() == supplies,
                totals.open_claims_view() == Map::<u64, Amount>::empty(),
                forall|k: u64| #[trigger] balance_of(totals.account_shares_view(), k) == held_shares(s.take(i as int), k),
                forall|k: u64| #[trigger] balance_of(totals.account_assets_view(), k) == held_assets(s.take(i as int), k),
            decreases s.len() - i,
        {
            let account = accounts[i];
            let positions = account.portfolio().share_positions();
            let ghost es = s[i as int].1.spec_portfolio().share_entries();
            proof { s[i as int].1.spec_portfolio().lemma_entries(); }
            let mut j: usize = 0;
            while j < positions.len()
                invariant
                    totals.wf(),
                    s == self.accounts.spec_entries(),
                    0 <= i < s.len(),
                    positions@.len() == es.len(),
                    forall|p: int| 0 <= p < positions@.len() ==> (#[trigger] positions@[p]).0@ == es[p].0
                        && positions@[p].1 == es[p].1,
                    crate::idmap::sorted_keys(es),
                    s[i as int].1.spec_portfolio().shares_view() == crate::idmap::entries_map(es),
                    j <= es.len(),
                    totals.reserves_view() == reserves,
                    totals.vault_shares_view() == supplies,
                    totals.open_claims_view() == Map::<u64, Amount>::empty(),
                    forall|k: u64| #[trigger] balance_of(totals.account_shares_view(), k) == held_shares(s.take(i as int), k)
                        + key_total(es.take(j as int), k),
                    forall|k: u64| #[trigger] balance_of(totals.account_assets_view(), k) == held_assets(s.take(i as int), k),
                decreases es.len() - j,
            {
                let (vault, amount) = positions[j];
                proof {
                    assert forall|k: u64| #[trigger] key_total(es.take(j as int + 1), k) == key_total(es.take(j as int), k)
                        + if es[j as int].0 == k { es[j as int].1@ } else { 0 } by {
                        lemma_key_total_step(es, j as int, k);
                    }
                }
                let ghost before = totals.account_shares_view();
                match totals.add_account_shares(vault, amount) {
                    Ok(()) => {
                        proof {
                            assert forall|k: u64| #[trigger] balance_of(totals.account_shares_view(), k)
                                == held_shares(s.take(i as int), k) + key_total(es.take(j as int + 1), k) by {
                                if k == vault@ {
                                    assert(balance_of(before, k) == held_shares(s.take(i as int), k) + key_total(es.take(j as int), k));
                                } else {
                                    assert(balance_of(before, k) == held_shares(s.take(i as int), k) + key_total(es.take(j as int), k));
                                }
                            }
                        }
                    },
                    Err(e) => {
                        proof {
                            let k = vault@;
                            lemma_key_total_prefix(es, j as int + 1, k);
                            lemma_key_total(es, k);
                            lemma_held_step(s, i as int, k);
                            lemma_held_prefix(s, i as int + 1, k);
                            assert(balance_of(before, k) == held_shares(s.take(i as int), k) + key_total(es.take(j as int), k));
                            assert(held_shares(self.spec_accounts().spec_entries(), k) > amount_max());
                        }
                        return Err(e);
                    },
                }
                j = j + 1;
            }
            proof {
                assert(es.take(es.len() as int) =~= es);
                assert forall|k: u64| #[trigger] balance_of(totals.account_shares_view(), k) == held_shares(s.take(i as int + 1), k) by {
                    lemma_key_total(es, k);
                    lemma_held_step(s, i as int, k);
                }
            }
            let assets = account.portfolio().asset_positions();
            let ghost ea = s[i as int].1.spec_portfolio().asset_entries();
            let mut j: usize = 0;
            while j < assets.len()
                invariant
                    totals.wf(),
                    s == self.accounts.spec_entries(),
                    0 <= i < s.len(),
                    assets@.len() == ea.len(),
                    forall|p: int| 0 <= p < assets@.len() ==> (#[trigger] assets@[p]).0@ == ea[p].0
                        && assets@[p].1 == ea[p].1,
                    crate::idmap::sorted_keys(ea),
                    s[i as int].1.spec_portfolio().assets_view() == crate::idmap::entries_map(ea),
                    j <= ea.len(),
                    totals.reserves_view() == reserves,
                    totals.vault_shares_view() == supplies,
                    totals.open_claims_view() == Map::<u64, Amount>::empty(),
                    forall|k: u64| #[trigger] balance_of(totals.account_shares_view(), k) == held_shares(s.take(i as int + 1), k),
                    forall|k: u64| #[trigger] balance_of(totals.account_assets_view(), k) == held_assets(s.take(i as int), k)
                        + key_total(ea.take(j as int), k),
                decreases ea.len() - j,
            {
                let (asset, amount) = assets[j];
                proof {
                    assert forall|k: u64| #[trigger] key_total(ea.take(j as int + 1), k) == key_total(ea.take(j as int), k)
                        + if ea[j as int].0 == k { ea[j as int].1@ } else { 0 } by {
                        lemma_key_total_step(ea, j as int, k);
                    }
                }
                let ghost before = totals.account_assets_view();
                match totals.add_account_asset(asset, amount) {
                    Ok(()) => {
                        proof {
                            assert forall|k: u64| #[trigger] balance_of(totals.account_assets_view(), k)
                                == held_assets(s.take(i as int), k) + key_total(ea.take(j as int + 1), k) by {
                                assert(balance_of(before, k) == held_assets(s.take(i as int), k) + key_total(ea.take(j as int), k));
                            }
                        }
                    },
                    Err(e) => {
                        proof {
                            let k = asset@;
                            lemma_key_total_prefix(ea, j as int + 1, k);
                            lemma_key_total(ea, k);
                            lemma_held_step(s, i as int, k);
                            lemma_held_prefix(s, i as int + 1, k);
                            assert(balance_of(before, k) == held_assets(s.take(i as int), k) + key_total(ea.take(j as int), k));
                            assert(held_assets(self.spec_accounts().spec_entries(), k) > amount_max());
                        }
                        return Err(e);
                    },
                }
                j = j + 1;
            }
            proof {
                assert(ea.take(ea.len() as int) =~= ea);
                assert forall|k: u64| #[trigger] balance_of(totals.account_assets_view(), k) == held_assets(s.take(i as int + 1), k) by {
                    lemma_key_total(ea, k);
                    lemma_held_step(s, i as int, k);
                }
            }
            i = i + 1;
        }
        proof { assert(s.take(s.len() as int) =~= s); }
        let ghost held_view = totals.account_shares_view();
        let ghost assets_view = totals.account_assets_view();
        let ghost cs = open_claim_seq(self.claims.claim_entries());
        let open = self.claims.open_claims();
        proof {
            lemma_open_seq_pending(self.claims.claim_entries());
            assert(open@.map_values(|c: &PriorityClaim| *c).len() == open@.len());
        }
        let mut j: usize = 0;
        while j < open.len()
            invariant
                totals.wf(),
                open@.map_values(|c: &PriorityClaim| *c) == cs,
                cs == open_claim_seq(self.claims.claim_entries()),
                forall|p: int| 0 <= p < cs.len() ==> (#[trigger] cs[p]).spec_state() is Pending,
                j <= open@.len(),
                totals.reserves_view() == reserves,
                totals.vault_shares_view() == supplies,
                totals.account_shares_view() == held_view,
                totals.account_assets_view() == assets_view,
                forall|k: u64| #[trigger] balance_of(totals.open_claims_view(), k) == claims_owed(cs.take(j as int), k),
            decreases open@.len() - j,
        {
            let c = open[j];
            proof {
                assert(*c == open@.map_values(|c: &PriorityClaim| *c)[j as int]);
                assert forall|k: u64| #[trigger] claims_owed(cs.take(j as int + 1), k) == claims_owed(cs.take(j as int), k)
                    + owed_to(cs[j as int], k) by {
                    lemma_claims_owed_step(cs, j as int, k);
                }
            }
            let ghost before = totals.open_claims_view();
            proof {
                assert(cs[j as int] == *c);
                assert(cs[j as int].spec_state() is Pending);
            }
            match totals.add_open_claim(c.vault(), c.amount()) {
                Ok(()) => {
                    proof {
                        assert forall|k: u64| #[trigger] balance_of(totals.open_claims_view(), k)
                            == claims_owed(cs.take(j as int + 1), k) by {
                            assert(balance_of(before, k) == claims_owed(cs.take(j as int), k));
                        }
                    }
                },
                Err(e) => {
                    proof {
                        let k = c.spec_vault()@;
                        assert(balance_of(before, k) == claims_owed(cs.take(j as int), k));
                        assert(owed_to(cs[j as int], k) == c.spec_amount()@);
                        assert(balance_of(before, k) + c.spec_amount()@ > amount_max());
                        assert(claims_owed(cs.take(j as int + 1), k) > amount_max());
                        lemma_claims_owed_prefix(cs, j as int + 1, k);
                        lemma_claims_owed(self.claims.claim_entries(), k);
                        assert(owed_claims(self.spec_claims().claim_entries(), k) > amount_max());
                    }
                    return Err(e);
                },
            }
            j = j + 1;
        }
        proof {
            assert(cs.take(cs.len() as int) =~= cs);
            assert forall|k: u64|
                #![trigger held_shares(self.spec_accounts().spec_entries(), k)]
                #![trigger held_assets(self.spec_accounts().spec_entries(), k)]
                #![trigger owed_claims(self.spec_claims().claim_entries(), k)]
                held_shares(self.spec_accounts().spec_entries(), k) <= amount_max()
                    && held_assets(self.spec_accounts().spec_entries(), k) <= amount_max()
                    && owed_claims(self.spec_claims().claim_entries(), k) <= amount_max() by {
                lemma_claims_owed(self.claims.claim_entries(), k);
                assert(balance_of(totals.account_shares_view(), k) == held_shares(s, k));
                assert(balance_of(totals.account_assets_view(), k) == held_assets(s, k));
                assert(balance_of(totals.open_claims_view(), k) == claims_owed(cs, k));
            }
            assert(shares_conserved(totals) <==> self.conserved()) by {
                if shares_conserved(totals) {
                    assert forall|k: u64| #[trigger] self.spec_vaults().contains_key(k) implies self.spec_vaults()[k].spec_total_shares()
                        == held_shares(self.spec_accounts().spec_entries(), k) by {
                        assert(totals.vault_shares_view().contains_key(k));
                        assert(balance_of(totals.account_shares_view(), k) == held_shares(s, k));
                    }
                }
                if self.conserved() {
                    assert forall|k: u64| #[trigger] totals.vault_shares_view().contains_key(k) implies
                        totals.vault_shares_view()[k]@ == balance_of(totals.account_shares_view(), k) by {
                        assert(self.spec_vaults().contains_key(k));
                        assert(balance_of(totals.account_shares_view(), k) == held_shares(s, k));
                    }
                }
            }
            assert(claims_covered(totals) <==> self.covered()) by {
                if claims_covered(totals) {
                    assert forall|k: u64| #[trigger] self.spec_vaults().contains_key(k) implies self.spec_vaults()[k].spec_reserve()
                        >= owed_claims(self.spec_claims().claim_entries(), k) by {
                        assert(totals.reserves_view().contains_key(k));
                        assert(balance_of(totals.open_claims_view(), k) == claims_owed(cs, k));
                        lemma_claims_owed(self.claims.claim_entries(), k);
                    }
                }
                if self.covered() {
                    assert forall|k: u64| #[trigger] totals.reserves_view().contains_key(k) implies
                        totals.reserves_view()[k]@ >= balance_of(totals.open_claims_view(), k) by {
                        assert(self.spec_vaults().contains_key(k));
                        assert(balance_of(totals.open_claims_view(), k) == claims_owed(cs, k));
                        lemma_claims_owed(self.claims.claim_entries(), k);
                    }
                }
            }
            assert forall|k: u64| #[trigger] self.spec_vaults().contains_key(k) implies totals.vault_shares_view()[k]@
                == self.spec_vaults()[k].spec_total_shares() && totals.reserves_view()[k]@ == self.spec_vaults()[k].spec_reserve()
                && balance_of(totals.account_shares_view(), k) == held_shares(self.spec_accounts().spec_entries(), k)
                && balance_of(totals.open_claims_view(), k) == owed_claims(self.spec_claims().claim_entries(), k) by {
                assert(totals.reserves_view().contains_key(k));
                assert(totals.vault_shares_view().contains_key(k));
                assert(balance_of(totals.account_shares_view(), k) == held_shares(s, k));
                assert(balance_of(totals.open_claims_view(), k) == claims_owed(cs, k));
                lemma_claims_owed(self.claims.claim_entries(), k);
            }
            assert forall|k: u64| #[trigger] conservation_gap(totals, k) <==> self.conservation_gap(k) by {
                if totals.vault_shares_view().contains_key(k) {
                    assert(self.spec_vaults().contains_key(k));
                }
                if self.spec_vaults().contains_key(k) {
                    assert(totals.vault_shares_view().contains_key(k));
                    assert(balance_of(totals.account_shares_view(), k) == held_shares(s, k));
                }
            }
            assert forall|k: u64| #[trigger] coverage_gap(totals, k) <==> self.coverage_gap(k) by {
                if totals.reserves_view().contains_key(k) {
                    assert(self.spec_vaults().contains_key(k));
                }
                if self.spec_vaults().contains_key(k) {
                    assert(totals.reserves_view().contains_key(k));
                    assert(balance_of(totals.open_claims_view(), k) == claims_owed(cs, k));
                    lemma_claims_owed(self.claims.claim_entries(), k);
                }
            }
        }
        Ok(totals)
    }

    /// Runs the reconciliation checks when they are switched on: fails with
    /// `Arithmetic` when a total overflows, else with `Invariant` when share
    /// conservation or claim coverage fails. Each check that passes is
    /// journaled; nothing else changes.
    pub fn check_invariants(&mut self) -> (r: CrownResult<()>)
        requires
            old(self).wf(),
            old(self).journal_room(2),
        ensures
            old(self).shares_balanced() ==> final(self).shares_balanced(),
            final(self).wf(),
            old(self).backed() ==> final(self).backed(),
            final(self).same_except_ledger(old(self)),
            final(self).checks_logged(old(self), old(self).check_event_count()),
            r is Ok <==> old(self).passes_checks(),
            r matches Err(e) ==> (e is Arithmetic && !old(self).totals_fit()) || (e is Invariant
                && old(self).totals_fit()),
            r matches Err(e) ==> (e is Invariant ==> e.spec_detail() == old(self).check_detail()),
            r matches Err(e) ==> (e is Arithmetic ==> e.spec_detail() == "amount addition overflow"@),
    {
        proof { assert(self.spec_events() + check_events(self.spec_day(), self.last_journal(), 0) =~= self.spec_events()); }
        if !self.config.invariant_checks() {
            return Ok(());
        }
        let totals = self.collect_totals()?;
        let day = self.clock.day();
        let first = self.ledger.assert_share_conservation(day, &totals);
        proof {
            self.lemma_checks_same(old(self));
            if first is Err {
                let k0 = choose|k: u64| #[trigger] conservation_gap(totals, k)
                    && (forall|k2: u64| k2 < k ==> !#[trigger] conservation_gap(totals, k2))
                    && first->Err_0.spec_detail() == conservation_detail(k, totals.vault_shares_view()[k]@,
                        balance_of(totals.account_shares_view(), k));
                assert forall|k2: u64| k2 < k0 implies !#[trigger] supply_gap(old(self).spec_vaults(), old(self).spec_accounts().spec_entries(), k2) by {
                    assert(!conservation_gap(totals, k2));
                    assert(!old(self).conservation_gap(k2));
                }
                assert(old(self).conservation_gap(k0));
                lemma_supply_detail(old(self).spec_vaults(), old(self).spec_accounts().spec_entries(), old(self).spec_claims().claim_entries(), k0);
            }
        }
        first?;
        proof {
            lemma_counter_names();
            self.lemma_wf_from(old(self));
            assert(self.spec_events() =~= old(self).spec_events() + check_events(old(self).spec_day(), old(self).last_journal(), 1));
        }
        let second = self.ledger.assert_claim_coverage(day, &totals);
        proof {
            self.lemma_checks_same(old(self));
            if second is Err {
                let k0 = choose|k: u64| #[trigger] coverage_gap(totals, k)
                    && (forall|k2: u64| k2 < k ==> !#[trigger] coverage_gap(totals, k2))
                    && second->Err_0.spec_detail() == coverage_detail(k, totals.reserves_view()[k]@,
                        balance_of(totals.open_claims_view(), k));
                assert forall|k2: u64| k2 < k0 implies !#[trigger] reserve_gap(old(self).spec_vaults(), old(self).spec_claims().claim_entries(), k2) by {
                    assert(!coverage_gap(totals, k2));
                    assert(!old(self).coverage_gap(k2));
                }
                assert forall|k: u64| !#[trigger] supply_gap(old(self).spec_vaults(), old(self).spec_accounts().spec_entries(), k) by {
                    assert(!old(self).conservation_gap(k));
                }
                assert(old(self).coverage_gap(k0));
                lemma_reserve_detail(old(self).spec_vaults(), old(self).spec_accounts().spec_entries(), old(self).spec_claims().claim_entries(), k0);
            }
        }
        second?;
        proof {
            lemma_counter_names();
            self.lemma_wf_from(old(self));
            assert(self.spec_events() =~= old(self).spec_events() + check_events(old(self).spec_day(), old(self).last_journal(), 2));
        }
        Ok(())
    }

    pub fn day(&self) -> (r: EpochDay)
        ensures
            r == self.spec_day(),
    {
        self.clock.day()
    }

    /// Moves the clock forward; fails with `Arithmetic`, leaving it, on
    /// overflow.
    pub fn advance_days(&mut self, days: u64) -> (r: CrownResult<EpochDay>)
        requires
            old(self).wf(),
        ensures
            old(self).shares_balanced() ==> final(self).shares_balanced(),
            final(self).wf(),
            old(self).backed() ==> final(self).backed(),
            old(self).spec_day()@ + days <= u64::MAX ==> (r matches Ok(d) && d@ == old(self).spec_day()@ + days
                && final(self).spec_day() == d),
            old(self).spec_day()@ + days > u64::MAX ==> (r matches Err(e) && e is Arithmetic
                && e.spec_detail() == "epoch day overflow"@ && final(self).spec_day() == old(self).spec_day()),
            final(self).spec_ledger() == old(self).spec_ledger(),
            final(self).spec_config() == old(self).spec_config(),
            final(self).spec_assets() == old(self).spec_assets(),
            final(self).spec_accounts() == old(self).spec_accounts(),
            final(self).spec_vaults() == old(self).spec_vaults(),
            final(self).vault_entries() == old(self).vault_entries(),
            final(self).spec_queue() == old(self).spec_queue(),
            final(self).spec_claims() == old(self).spec_claims(),
            final(self).spec_limits() == old(self).spec_limits(),
            final(self).spec_capacity() == old(self).spec_capacity(),
    {
        let r = self.clock.advance_days(days);
        proof {
            self.lemma_wf_from(old(self));
            if old(self).shares_balanced() { self.lemma_balanced_keep(old(self)); }
        }
        r
    }

    pub fn set_day(&mut self, day: EpochDay)
        requires
            old(self).wf(),
        ensures
            old(self).shares_balanced() ==> final(self).shares_balanced(),
            final(self).wf(),
            old(self).backed() ==> final(self).backed(),
            final(self).spec_day() == day,
            final(self).spec_ledger() == old(self).spec_ledger(),
            final(self).spec_config() == old(self).spec_config(),
            final(self).spec_assets() == old(self).spec_assets(),
            final(self).spec_accounts() == old(self).spec_accounts(),
            final(self).spec_vaults() == old(self).spec_vaults(),
            final(self).vault_entries() == old(self).vault_entries(),
            final(self).spec_queue() == old(self).spec_queue(),
            final(self).spec_claims() == old(self).spec_claims(),
            final(self).spec_limits() == old(self).spec_limits(),
            final(self).spec_capacity() == old(self).spec_capacity(),
    {
        self.clock.set_day(day);
        proof {
            self.lemma_wf_from(old(self));
            if old(self).shares_balanced() { self.lemma_balanced_keep(old(self)); }
        }
    }

    pub fn accounts(&self) -> (r: &AccountRegistry)
        ensures
            *r == self.spec_accounts(),
    {
        &self.accounts
    }

    pub fn assets(&self) -> (r: &AssetRegistry)
        ensures
            *r == self.spec_assets(),
    {
        &self.assets
    }

    pub fn ledger(&self) -> (r: &ProtocolLedger)
        ensures
            *r == self.spec_ledger(),
    {
        &self.ledger
    }

    pub fn claims(&self) -> (r: &PriorityBook)
        ensures
            *r == self.spec_claims(),
    {
        &self.claims
    }

    /// The queue summary of the vault.
    pub fn queue_snapshot(&self, vault: VaultId) -> (r: CrownResult<QueueSnapshot>)
        requires
            self.wf(),
        ensures
            crate::queue::queued_amount(self.spec_queue().spec_items(vault)) > amount_max() ==> (r matches Err(e)
                && e is Arithmetic && e.spec_detail() == "amount addition overflow"@),
            crate::queue::queued_amount(self.spec_queue().spec_items(vault)) <= amount_max() ==> (r matches Ok(s)
                && s.spec_vault() == vault
                && s.spec_priority_depth() == crate::queue::lane_count(self.spec_queue().spec_items(vault), Lane::Priority)
                && s.spec_standard_depth() == crate::queue::lane_count(self.spec_queue().spec_items(vault), Lane::Standard)
                && s.spec_priority_depth() + s.spec_standard_depth() == self.spec_queue().spec_items(vault).len()
                && s.spec_priority_depth() + s.spec_standard_depth() <= usize::MAX
                && s.spec_total_amount()@ == crate::queue::queued_amount(self.spec_queue().spec_items(vault))),
    {
        self.queue.snapshot(vault)
    }

    /// The vault; fails with `MissingVault` when there is none.
    pub fn vault(&self, id: VaultId) -> (r: CrownResult<&VaultState>)
        requires
            self.wf(),
        ensures
            self.spec_vaults().contains_key(id@) ==> (r matches Ok(v) && *v == self.spec_vaults()[id@]),
            !self.spec_vaults().contains_key(id@) ==> (r matches Err(e) && e is MissingVault
                && e.spec_detail() == "vault-"@ + decimal(id@ as nat)),
    {
        match self.vaults.get(id.raw()) {
            Some(v) => Ok(v),
            None => Err(CrownError::MissingVault(id.label())),
        }
    }

    /// Mutable access to the vault; a change that keeps the vault well
    /// formed and its configuration keeps the engine well formed, and one
    /// that keeps its tickets and its pending assets within its reserve
    /// keeps the engine backed.
    pub fn vault_mut(&mut self, id: VaultId) -> (r: CrownResult<&mut VaultState>)
        requires
            old(self).wf(),
        ensures
            old(self).spec_vaults().contains_key(id@) ==> (r matches Ok(v) && *v == old(self).spec_vaults()[id@]),
            r matches Ok(v) ==> (final(v).wf() && final(v).spec_config() == v.spec_config() && tickets_ok(
                *final(v),
                id@,
                old(self).ids().last_redemption(),
                old(self).spec_accounts().spec_accounts(),
            ) ==> final(self).wf()),

            r matches Ok(v) ==> final(self).spec_vaults() == old(self).spec_vaults().insert(id@, *final(v)),
            r matches Ok(v) ==> (old(self).backed() && final(v).spec_tickets() == v.spec_tickets()
                && final(v).spec_pending() <= final(v).spec_reserve() ==> final(self).backed()),
            !old(self).spec_vaults().contains_key(id@) ==> (r matches Err(e) && e is MissingVault
                && e.spec_detail() == "vault-"@ + decimal(id@ as nat) && *final(self) == *old(self)),
            final(self).spec_ledger() == old(self).spec_ledger(),
            final(self).spec_config() == old(self).spec_config(),
            final(self).spec_day() == old(self).spec_day(),
            final(self).spec_assets() == old(self).spec_assets(),
            final(self).spec_accounts() == old(self).spec_accounts(),
            final(self).spec_queue() == old(self).spec_queue(),
            final(self).spec_claims() == old(self).spec_claims(),
            final(self).spec_limits() == old(self).spec_limits(),
            final(self).spec_capacity() == old(self).spec_capacity(),
    {
        proof {
            if self.vaults.view().contains_key(id@) {
                let ghost pre = *self;
                assert forall|e: CrownEngine| #![trigger e.wf()] e.spec_config() == pre.spec_config()
                    && e.spec_day() == pre.spec_day() && e.spec_ledger() == pre.spec_ledger()
                    && e.spec_assets() == pre.spec_assets() && e.spec_accounts() == pre.spec_accounts()
                    && e.spec_queue() == pre.spec_queue() && e.spec_claims() == pre.spec_claims()
                    && e.spec_limits() == pre.spec_limits() && e.spec_capacity() == pre.spec_capacity()
                    && e.vaults.wf() && vaults_ok(e.vaults.view(), e.ids(), e.spec_accounts().spec_accounts()) implies e.wf() by {
                    assert forall|v: VaultId| #[trigger] e.spec_queue().spec_sequence(v) <= e.ids().last_redemption() by {
                        assert(pre.spec_queue().spec_sequence(v) <= pre.ids().last_redemption());
                    }
                }
                assert forall|v: VaultState| #![trigger vaults_ok(self.vaults.view().insert(id@, v), self.ids(), self.spec_accounts().spec_accounts())]
                    v.wf() && v.spec_config() == self.vaults.view()[id@].spec_config()
                    && tickets_ok(v, id@, self.ids().last_redemption(), self.spec_accounts().spec_accounts())
                    implies vaults_ok(self.vaults.view().insert(id@, v), self.ids(), self.spec_accounts().spec_accounts()) by {
                    let m = self.vaults.view().insert(id@, v);
                    assert forall|k: u64, t: u64| m.contains_key(k) && #[trigger] m[k].spec_tickets().contains_key(t)
                        implies t <= self.ids().last_redemption() && m[k].spec_tickets()[t].spec_vault()@ == k
                        && self.spec_accounts().spec_accounts().contains_key(m[k].spec_tickets()[t].spec_account()@) by {
                        if k != id@ {
                            assert(self.vaults.view()[k].spec_tickets().contains_key(t));
                        }
                    }
                }
            }
        }
        if !self.vaults.contains_key(id.raw()) {
            return Err(CrownError::MissingVault(id.label()));
        }
        match self.vaults.get_mut(id.raw()) {
            Some(v) => Ok(v),
            None => Err(CrownError::MissingVault(id.label())),
        }
    }

    /// All vaults in identifier order.
    pub fn vaults(&self) -> (r: Vec<&VaultState>)
        ensures
            r@.len() == self.vault_entries().len(),
            forall|i: int| 0 <= i < r@.len() ==> *(#[trigger] r@[i]) == self.vault_entries()[i].1,
    {
        let mut out: Vec<&VaultState> = Vec::new();
        let mut i: usize = 0;
        while i < self.vaults.len()
            invariant
                i <= self.vault_entries().len(),
                out@.len() == i,
                forall|j: int| 0 <= j < i ==> *(#[trigger] out@[j]) == self.vault_entries()[j].1,
            decreases self.vault_entries().len() - i,
        {
            let (_, v) = self.vaults.entry_at(i);
            out.push(v);
            i = i + 1;
        }
        out
    }

    /// The account with the label, up to ASCII case.
    pub fn account_id(&self, label: &str) -> (r: CrownResult<AccountId>)
        requires
            self.wf(),
        ensures
            self.spec_accounts().has_label(label@) ==> (r matches Ok(id)
                && self.spec_accounts().spec_accounts().contains_key(id@) && crate::text::lower(
                self.spec_accounts().spec_accounts()[id@].spec_label(),
            ) == crate::text::lower(label@)),
            !self.spec_accounts().has_label(label@) ==> (r matches Err(e) && e is MissingAccount
                && e.spec_detail() == label@),
    {
        self.accounts.by_label(label)
    }

    /// The vault with the smallest identifier; fails with `MissingVault`
    /// when there is none.
    pub fn first_vault_id(&self) -> (r: CrownResult<VaultId>)
        requires
            self.wf(),
        ensures
            self.vault_entries().len() > 0 ==> r == Ok::<VaultId, CrownError>(VaultId::spec_new(self.vault_entries()[0].0)),
            self.vault_entries().len() == 0 ==> (r matches Err(e) && e is MissingVault
                && e.spec_detail() == "no vaults registered"@),
    {
        if self.vaults.len() == 0 {
            return Err(CrownError::MissingVault(String::from_str("no vaults registered")));
        }
        let (k, _) = self.vaults.entry_at(0);
        Ok(VaultId::new(k))
    }

    /// Only the parts flagged `true` may differ from `other`; the
    /// configuration and the day are always the same.
    pub open spec fn changes_only(
        &self,
        other: &Self,
        assets: bool,
        accounts: bool,
        vaults: bool,
        queue: bool,
        claims: bool,
        limits: bool,
        capacity: bool,
    ) -> bool {
        &&& self.spec_config() == other.spec_config()
        &&& self.spec_day() == other.spec_day()
        &&& !assets ==> self.spec_assets() == other.spec_assets()
        &&& !accounts ==> self.spec_accounts() == other.spec_accounts()
        &&& !vaults ==> self.spec_vaults() == other.spec_vaults() && self.vault_entries() == other.vault_entries()
        &&& !queue ==> self.spec_queue() == other.spec_queue()
        &&& !claims ==> self.spec_claims() == other.spec_claims()
        &&& !limits ==> self.spec_limits() == other.spec_limits()
        &&& !capacity ==> self.spec_capacity() == other.spec_capacity()
    }

    /// Each identifier counter of `self` is that of `other` advanced by the
    /// given step.
    pub open spec fn ids_moved(
        &self,
        other: &Self,
        asset: nat,
        account: nat,
        vault: nat,
        redemption: nat,
        window: nat,
        journal: nat,
    ) -> bool {
        &&& self.ids().last_asset() == other.ids().last_asset() + asset
        &&& self.ids().last_account() == other.ids().last_account() + account
        &&& self.ids().last_vault() == other.ids().last_vault() + vault
        &&& self.ids().last_redemption() == other.ids().last_redemption() + redemption
        &&& self.ids().last_window() == other.ids().last_window() + window
        &&& self.ids().last_journal() == other.ids().last_journal() + journal
        &&& self.ids().last_route() == other.ids().last_route()
    }

    /// Registers an asset under the next asset identifier and journals it.
    /// Fails with `InvalidPolicy` for a blank symbol or more than 18
    /// decimals, then with `DuplicateAsset` when the symbol is taken up to
    /// ASCII case; the identifier is used up either way.
    pub fn register_asset(&mut self, symbol: &str, name: &str, decimals: u8, minimum_redemption: Amount) -> (r:
        CrownResult<AssetId>)
        requires
            old(self).wf(),
            old(self).ids().last_asset() < u64::MAX,
            old(self).journal_room(1),
        ensures
            old(self).shares_balanced() ==> final(self).shares_balanced(),
            final(self).wf(),
            old(self).backed() ==> final(self).backed(),
            final(self).changes_only(old(self), true, false, false, false, false, false, false),
            final(self).ids().last_asset() == old(self).ids().last_asset() + 1,
            ({
                let id = AssetId::spec_new((old(self).ids().last_asset() + 1) as u64);
                let fails = blank(symbol@) || decimals > 18 || old(self).spec_assets().has_symbol(symbol@);
                let m = final(self).spec_assets().spec_assets()[id@];
                &&& blank(symbol@) ==> (r matches Err(e) && e is InvalidPolicy && e.spec_detail()
                    == "asset symbol is empty"@)
                &&& !blank(symbol@) && decimals > 18 ==> (r matches Err(e) && e is InvalidPolicy && e.spec_detail()
                    == "asset decimals exceed protocol range"@)
                &&& !blank(symbol@) && decimals <= 18 && old(self).spec_assets().has_symbol(symbol@) ==> (
                r matches Err(e) && e is DuplicateAsset && e.spec_detail() == upper(symbol@))
                &&& fails ==> final(self).spec_assets() == old(self).spec_assets() && final(self).ids_moved(old(self), 1, 0, 0, 0, 0, 0)
                    && final(self).spec_events() == old(self).spec_events()
                &&& !fails ==> r == Ok::<AssetId, CrownError>(id) && final(self).spec_assets().spec_assets()
                    == old(self).spec_assets().spec_assets().insert(id@, m) && m.spec_id() == id
                    && m.spec_symbol() == symbol@ && m.spec_name() == name@ && m.spec_decimals() == decimals
                    && m.spec_minimum_redemption() == minimum_redemption
                    && final(self).ids_moved(old(self), 1, 0, 0, 0, 0, 1)
                    && final(self).spec_events() == old(self).spec_events().push(EventView {
                        asset: Some(id),
                        ..note_event((old(self).last_journal() + 1) as u64, old(self).spec_day(), EventKind::AssetRegistered, Seq::empty())
                    })
            }),
    {
        let id = self.ledger.next_asset();
        proof {
            lemma_counter_names();
            self.lemma_wf_from(old(self));
            if old(self).shares_balanced() { self.lemma_balanced_keep(old(self)); }
        }
        let metadata = AssetMetadata::new(id, symbol, name, decimals, minimum_redemption)?;
        proof {
            AssetId::lemma_view(id, AssetId::spec_new(id@), id@);
            if self.assets.spec_assets().contains_key(id@) {
                assert(self.spec_assets().spec_assets().contains_key(id@));
            }
        }
        let ghost before = *self;
        let inserted = self.assets.insert(metadata);
        proof { if before.shares_balanced() { self.lemma_balanced_keep(&before); } }
        inserted?;
        let day = self.clock.day();
        let event = self.ledger.event(day, EventKind::AssetRegistered).asset(id).build();
        proof {
            let j = self.last_journal();
            JournalId::lemma_view(event@.id, JournalId::spec_new(j), j);
            AssetId::lemma_view(id, AssetId::spec_new(id@), id@);
        }
        self.ledger.record(event);
        proof {
            self.assets.lemma_wf();
            if old(self).shares_balanced() { self.lemma_balanced_keep(old(self)); }
            assert forall|k: u64| #[trigger] self.spec_assets().spec_assets().contains_key(k) implies k <= self.ids().last_asset() by {
                if k != id@ {
                    assert(old(self).spec_assets().spec_assets().contains_key(k));
                }
            }
            self.lemma_wf_from(old(self));
        }
        Ok(id)
    }

    /// Registers an account under the next account identifier and journals
    /// it with the tier's label. Fails with `InvalidPolicy` for a blank label
    /// and with `DuplicateAccount` when the label is taken up to ASCII case;
    /// the identifier is used up either way.
    pub fn register_account(&mut self, label: &str, tier: AccountTier) -> (r: CrownResult<AccountId>)
        requires
            old(self).wf(),
            old(self).ids().last_account() < u64::MAX,
            old(self).journal_room(1),
        ensures
            r is Ok && old(self).shares_balanced() ==> final(self).shares_balanced(),
            final(self).wf(),
            old(self).backed() ==> final(self).backed(),
            final(self).changes_only(old(self), false, true, false, false, false, false, false),
            final(self).ids().last_account() == old(self).ids().last_account() + 1,
            ({
                let id = AccountId::spec_new((old(self).ids().last_account() + 1) as u64);
                let fails = blank(label@) || old(self).spec_accounts().has_label(label@);
                let a = final(self).spec_accounts().spec_accounts()[id@];
                &&& blank(label@) ==> (r matches Err(e) && e is InvalidPolicy && e.spec_detail()
                    == "account label is empty"@)
                &&& !blank(label@) && old(self).spec_accounts().has_label(label@) ==> (r matches Err(e)
                    && e is DuplicateAccount && e.spec_detail() == label@)
                &&& fails ==> final(self).spec_accounts() == old(self).spec_accounts() && final(self).ids_moved(old(self), 0, 1, 0, 0, 0, 0)
                    && final(self).spec_events() == old(self).spec_events()
                &&& !fails ==> r == Ok::<AccountId, CrownError>(id) && final(self).spec_accounts().spec_accounts()
                    == old(self).spec_accounts().spec_accounts().insert(id@, a) && a.spec_id() == id
                    && a.spec_label() == label@ && a.spec_tier() == tier
                    && a.spec_portfolio().shares_view() == Map::<u64, Amount>::empty()
                    && a.spec_portfolio().assets_view() == Map::<u64, Amount>::empty()
                    && a.spec_portfolio().pending_view() == Map::<u64, Amount>::empty()
                    && final(self).ids_moved(old(self), 0, 1, 0, 0, 0, 1)
                    && final(self).spec_events() == old(self).spec_events().push(EventView {
                        account: Some(id),
                        ..note_event((old(self).last_journal() + 1) as u64, old(self).spec_day(), EventKind::AccountRegistered, tier.spec_label())
                    })
            }),
    {
        let id = self.ledger.next_account();
        proof { lemma_counter_names(); self.lemma_wf_from(old(self)); }
        let account = Account::new(id, label, tier)?;
        proof {
            AccountId::lemma_view(id, AccountId::spec_new(id@), id@);
            if self.accounts.spec_accounts().contains_key(id@) {
                assert(self.spec_accounts().spec_accounts().contains_key(id@));
            }
        }
        self.accounts.insert(account)?;
        let day = self.clock.day();
        let event = self.ledger.event(day, EventKind::AccountRegistered).account(id).note(tier.label()).build();
        proof {
            let j = self.last_journal();
            JournalId::lemma_view(event@.id, JournalId::spec_new(j), j);
            AccountId::lemma_view(id, AccountId::spec_new(id@), id@);
        }
        self.ledger.record(event);
        proof {
            assert forall|k: u64| #[trigger] self.spec_accounts().spec_accounts().contains_key(k) implies k <= self.ids().last_account() by {
                if k != id@ {
                    assert(old(self).spec_accounts().spec_accounts().contains_key(k));
                }
            }
            if old(self).shares_balanced() {
                let es = old(self).spec_accounts().spec_entries();
                let p = choose|p: int| 0 <= p <= es.len() && self.spec_accounts().spec_entries() == es.insert(p, (id@, account));
                assert forall|x: u64| #[trigger] held_shares(self.spec_accounts().spec_entries(), x) == held_shares(es, x) by {
                    crate::idmap::lemma_sum_insert(es, p, (id@, account), |a: Account| balance_of(a.spec_portfolio().shares_view(), x));
                }
                self.lemma_balanced_keep(old(self));
            }
            self.lemma_wf_from(old(self));
        }
        Ok(id)
    }

    /// Opens a vault for an asset with two windows, priority then standard,
    /// open from day 0 to day 30 with the policy's delays, and journals it.
    /// Fails with `MissingAsset` for an unknown asset and with
    /// `InvalidPolicy` for a blank name, after using up a vault identifier.
    pub fn open_vault(&mut self, name: &str, asset: AssetId, policy: RedemptionPolicy) -> (r: CrownResult<VaultId>)
        requires
            old(self).wf(),
            old(self).ids().last_vault() < u64::MAX,
            old(self).ids().last_window() + 2 <= u64::MAX,
            old(self).journal_room(1),
        ensures
            r is Ok && old(self).shares_balanced() ==> final(self).shares_balanced(),
            final(self).wf(),
            old(self).backed() ==> final(self).backed(),
            final(self).changes_only(old(self), false, false, true, false, false, false, false),
            ({
                let known = old(self).spec_assets().spec_assets().contains_key(asset@);
                let id = VaultId::spec_new((old(self).ids().last_vault() + 1) as u64);
                let w = (old(self).ids().last_window() + 1) as u64;
                let v = final(self).spec_vaults()[id@];
                &&& !known ==> (r matches Err(e) && e is MissingAsset && e.spec_detail() == "asset-"@ + decimal(
                    asset@ as nat,
                ) && *final(self) == *old(self))
                &&& known && blank(name@) ==> (r matches Err(e) && e is InvalidPolicy && e.spec_detail()
                    == "vault name is empty"@
                    && final(self).spec_vaults() == old(self).spec_vaults() && final(self).ids_moved(old(self), 0, 0, 1, 0, 0, 0)
                    && final(self).spec_events() == old(self).spec_events())
                &&& known && !blank(name@) ==> (r == Ok::<VaultId, CrownError>(id)
                    && final(self).spec_vaults() == old(self).spec_vaults().insert(id@, v)
                    && v.spec_id() == id && v.spec_config().spec_name() == name@ && v.spec_asset() == asset
                    && v.spec_policy() == policy && v.spec_reserve() == 0 && v.spec_total_shares() == 0
                    && v.spec_pending() == 0 && v.spec_tickets() == Map::<u64, RedemptionTicket>::empty()
                    && v.spec_config().window_entries().len() == 2
                    && opening_window(v.spec_config().window_entries()[0], w, WindowKind::Priority,
                        policy.spec_priority().spec_priority_delay())
                    && opening_window(v.spec_config().window_entries()[1], (w + 1) as u64, WindowKind::Standard,
                        policy.spec_priority().spec_standard_delay())
                    && final(self).ids_moved(old(self), 0, 0, 1, 0, 2, 1)
                    && final(self).spec_events() == old(self).spec_events().push(EventView {
                        vault: Some(id),
                        asset: Some(asset),
                        ..note_event((old(self).last_journal() + 1) as u64, old(self).spec_day(), EventKind::VaultOpened, Seq::empty())
                    }))
            }),
    {
        proof { lemma_counter_names(); }
        if !self.assets.contains(asset) {
            return Err(CrownError::MissingAsset(asset.label()));
        }
        let id = self.ledger.next_vault();
        proof {
            VaultId::lemma_view(id, VaultId::spec_new(id@), id@);
            self.lemma_wf_from(old(self));
        }
        let mut config = VaultConfig::new(id, name, asset, policy)?;
        let priority_window = self.ledger.next_window();
        let standard_window = self.ledger.next_window();
        let priority_spec = WindowSpec::new(
            WindowKind::Priority,
            EpochDay::new(0),
            EpochDay::new(30),
            policy.priority().priority_unlock_delay(),
            EpochDay::new(0),
        )?;
        config.add_window(UnlockWindow::new(priority_window, priority_spec))?;
        let standard_spec = WindowSpec::new(
            WindowKind::Standard,
            EpochDay::new(0),
            EpochDay::new(30),
            policy.priority().standard_unlock_delay(),
            EpochDay::new(0),
        )?;
        let ghost one = config.window_entries();
        let second = UnlockWindow::new(standard_window, standard_spec);
        config.add_window(second)?;
        proof {
            config.lemma_windows();
            let e = config.window_entries();
            assert(one.len() == 1);
            let p = choose|p: int| 0 <= p <= one.len() && e == one.insert(p, (second.spec_id()@, second));
            if p == 0 {
                assert(e[0].0 < e[1].0);
            }
            assert(e[0] == one[0]);
        }
        let state = VaultState::new(config);
        self.vaults.insert(id.raw(), state);
        let day = self.clock.day();
        let event = self.ledger.event(day, EventKind::VaultOpened).vault(id).asset(asset).build();
        proof {
            let j = self.last_journal();
            JournalId::lemma_view(event@.id, JournalId::spec_new(j), j);
        }
        self.ledger.record(event);
        proof {
            let m = self.vaults.view();
            assert forall|k: u64| #[trigger] m.contains_key(k) implies m[k].wf() && m[k].spec_id()@ == k
                && k <= self.ids().last_vault() && windows_follow_policy(m[k]) by {
                if k != id@ {
                    assert(old(self).vaults.view().contains_key(k));
                } else {
                    let ws = m[k].spec_config().window_entries();
                    assert(ws[0].1.spec_spec().spec_kind() == WindowKind::Priority);
                    assert(ws[1].1.spec_spec().spec_kind() == WindowKind::Standard);
                    assert(window_from(ws, 0, WindowKind::Priority) == Some(ws[0].1));
                    assert(window_from(ws, 1, WindowKind::Standard) == Some(ws[1].1));
                    assert(window_from(ws, 0, WindowKind::Standard) == Some(ws[1].1));
                }
            }
            assert forall|k: u64, t: u64| m.contains_key(k) && #[trigger] m[k].spec_tickets().contains_key(t)
                implies t <= self.ids().last_redemption() by {
                if k != id@ {
                    assert(old(self).vaults.view()[k].spec_tickets().contains_key(t));
                }
            }
            assert forall|k: u64| #[trigger] self.spec_assets().spec_assets().contains_key(k) implies k <= self.ids().last_asset() by {
                assert(old(self).spec_assets().spec_assets().contains_key(k));
            }
            assert forall|k: u64| #[trigger] self.spec_accounts().spec_accounts().contains_key(k) implies k <= self.ids().last_account() by {
                assert(old(self).spec_accounts().spec_accounts().contains_key(k));
            }
            assert forall|t: u64| #[trigger] self.spec_claims().spec_claims().contains_key(t) implies t <= self.ids().last_redemption() by {
                assert(old(self).spec_claims().spec_claims().contains_key(t));
            }
            assert forall|v: VaultId| #[trigger] self.spec_queue().spec_sequence(v) <= self.ids().last_redemption() by {
                assert(old(self).spec_queue().spec_sequence(v) <= old(self).ids().last_redemption());
            }
            if old(self).shares_balanced() {
                assert(!old(self).spec_vaults().contains_key(id@));
                self.lemma_balanced_keep(old(self));
            }
        }
        Ok(id)
    }

    /// Mints `shares` of the vault to the account, backed one for one by a
    /// deposit into the vault's reserve, journals it and runs the
    /// reconciliation checks. Fails with `InvalidAmount` for zero shares,
    /// `MissingVault`, `Arithmetic` when the reserve or the share supply
    /// would overflow, `MissingAccount`, and `Arithmetic` when the account's
    /// balance would overflow, all checked before anything changes.
    pub fn mint_position(&mut self, account: AccountId, vault: VaultId, shares: Amount) -> (r: CrownResult<()>)
        requires
            old(self).wf(),
            old(self).journal_room(3),
        ensures
            final(self).wf(),
            old(self).backed() ==> final(self).backed(),
            final(self).changes_only(old(self), false, true, true, false, false, false, false),
            ({
                let has_v = old(self).spec_vaults().contains_key(vault@);
                let v = old(self).spec_vaults()[vault@];
                let nv = final(self).spec_vaults()[vault@];
                let has_a = old(self).spec_accounts().spec_accounts().contains_key(account@);
                let a = old(self).spec_accounts().spec_accounts()[account@];
                let na = final(self).spec_accounts().spec_accounts()[account@];
                let bal = a.spec_portfolio().spec_share(vault);
                let deposited = shares@ != 0 && has_v && v.spec_reserve() + shares@ <= amount_max();
                let minted = deposited && v.spec_total_shares() + shares@ <= amount_max();
                let credited = minted && has_a && bal + shares@ <= amount_max();
                &&& shares@ == 0 ==> (r matches Err(e) && e is InvalidAmount && e.spec_detail() == "mint shares"@
                    + " must be non-zero"@ && *final(self) == *old(self))
                &&& shares@ != 0 && !has_v ==> (r matches Err(e) && e is MissingVault && e.spec_detail() == "vault-"@
                    + decimal(vault@ as nat) && *final(self) == *old(self))
                &&& shares@ != 0 && has_v && !deposited ==> (r matches Err(e) && e is Arithmetic && e.spec_detail()
                    == "amount addition overflow"@ && *final(self) == *old(self))
                &&& deposited && !minted ==> (r matches Err(e) && e is Arithmetic && e.spec_detail()
                    == "amount addition overflow"@ && *final(self) == *old(self))
                &&& minted && !has_a ==> (r matches Err(e) && e is MissingAccount && e.spec_detail() == "acct-"@
                    + decimal(account@ as nat) && *final(self) == *old(self))
                &&& minted && has_a && !credited ==> (r matches Err(e) && e is Arithmetic && e.spec_detail()
                    == "amount addition overflow"@ && *final(self) == *old(self))
                &&& credited ==> final(self).spec_vaults() == old(self).spec_vaults().insert(vault@, nv)
                    && vault_moved(v, nv, shares@ as int, shares@ as int, 0)
                &&& credited && old(self).shares_balanced() ==> final(self).shares_balanced()
                &&& credited ==> account_replaced(final(self).spec_accounts(), old(self).spec_accounts(), account@, na)
                    && shares_set(a, na, a.spec_portfolio().shares_view().insert(vault@, Amount::spec_new((bal + shares@) as u128)))
                    && final(self).ids_moved(old(self), 0, 0, 0, 0, 0, 1 + final(self).check_event_count())
                    && final(self).spec_events() == old(self).spec_events().push(EventView {
                        account: Some(account),
                        vault: Some(vault),
                        asset: Some(v.spec_asset()),
                        amount: Some(shares),
                        ..note_event((old(self).last_journal() + 1) as u64, old(self).spec_day(), EventKind::SharesMinted, Seq::empty())
                    }) + check_events(old(self).spec_day(), (old(self).last_journal() + 1) as u64, final(self).check_event_count())
                    && (r is Ok <==> final(self).passes_checks())
                    && (r matches Err(e) ==> (e is Arithmetic && !final(self).totals_fit()) || (e is Invariant
                        && final(self).totals_fit()))
                    && (r matches Err(e) ==> (e is Invariant ==> e.spec_detail() == final(self).check_detail())
                        && (e is Arithmetic ==> e.spec_detail() == "amount addition overflow"@))
            }),
    {
        shares.non_zero("mint shares")?;
        let asset = self.vault(vault)?.asset();
        self.vault(vault)?.reserve_assets().checked_add(shares)?;
        self.vault(vault)?.total_shares().checked_add(shares)?;
        proof { self.accounts.lemma_wf(); }
        let balance = self.accounts.get(account)?.portfolio().share_balance(vault);
        balance.checked_add(shares)?;
        proof { self.lemma_vault_ids(vault@); }
        self.vault_mut(vault)?.deposit_assets(shares)?;
        proof { self.lemma_vault_ids(vault@); }
        self.vault_mut(vault)?.mint_shares(shares)?;
        proof { self.accounts.lemma_wf(); }
        let ghost pre_credit = *self;
        match self.accounts.get_mut(account) {
            Ok(a) => {
                let r = a.portfolio_mut().credit_shares(vault, shares);
                proof { assert(r is Ok); }
            },
            Err(e) => {
                return Err(e);
            },
        }
        proof {
            if old(self).shares_balanced() {
                let a = old(self).spec_accounts().spec_accounts()[account@];
                let na = self.spec_accounts().spec_accounts()[account@];
                assert forall|x: u64| #[trigger] balance_of(na.spec_portfolio().shares_view(), x)
                    == balance_of(a.spec_portfolio().shares_view(), x) + if x == vault@ { shares@ as int } else { 0 } by {}
                assert(self.spec_vaults() =~= old(self).spec_vaults().insert(vault@, self.spec_vaults()[vault@]));
                self.lemma_balanced_move(old(self), account@, vault@, shares@ as int);
            }
        }
        let day = self.clock.day();
        let event = self.ledger.event(day, EventKind::SharesMinted).account(account).vault(vault).asset(asset).amount(
            shares,
        ).build();
        proof {
            let j = self.last_journal();
            JournalId::lemma_view(event@.id, JournalId::spec_new(j), j);
            lemma_counter_names();
        }
        self.ledger.record(event);
        let ghost mid = *self;
        proof {
            assert forall|k: u64| #[trigger] self.spec_accounts().spec_accounts().contains_key(k) implies k <= self.ids().last_account() by {
                assert(pre_credit.spec_accounts().spec_accounts().contains_key(k));
            }
            self.lemma_wf_from(&pre_credit);
        }
        let r = self.check_invariants();
        proof {
            self.lemma_checks_same(&mid);
            assert(self.spec_events() =~= old(self).spec_events().push(event@) + check_events(old(self).spec_day(), (old(self).last_journal() + 1) as u64, self.check_event_count()));
        }
        r
    }

    /// The error code a redemption request is refused with before anything
    /// changes, checked in this order; empty when it passes.
    pub open spec fn request_refusal(&self, account: AccountId, vault: VaultId, shares: Amount, kind: RedemptionKind) -> Seq<char> {
        let day = self.spec_day();
        let accts = self.spec_accounts().spec_accounts();
        let a = accts[account@];
        let tier = a.spec_tier();
        let v = self.spec_vaults()[vault@];
        let policy = v.spec_policy();
        let pp = policy.spec_priority();
        let projected = self.spec_limits().spec_bucket(account, vault, day).spec_active() + shares@;
        let cap = self.spec_capacity().spec_bucket(vault, day);
        let window = window_for(v.spec_config().window_entries(), kind);
        if !accts.contains_key(account@) {
            "missing_account"@
        } else if !self.spec_vaults().contains_key(vault@) {
            "missing_vault"@
        } else if !policy.spec_valid_amount(shares) {
            "invalid_amount"@
        } else if kind is Priority && !tier.spec_may_use_priority() {
            "invalid_lane"@
        } else if a.spec_portfolio().spec_share(vault) < shares@ {
            "insufficient_shares"@
        } else if self.spec_queue().spec_items(vault).len() >= pp.spec_max_queue_depth() {
            "queue_capacity"@
        } else if projected > amount_max() {
            "arithmetic"@
        } else if projected > policy.spec_daily_limits().spec_for_tier(tier)@ {
            "limit_exceeded"@
        } else if kind is Priority && projected > pp.spec_per_user()@ {
            "limit_exceeded"@
        } else if kind is Priority && !(0 <= cap.spec_net() <= pp.spec_daily_capacity()@) {
            "arithmetic"@
        } else if kind is Priority && pp.spec_daily_capacity()@ - cap.spec_net() < shares@ {
            "queue_capacity"@
        } else if v.spec_total_shares() == 0 {
            "invalid_amount"@
        } else if v.spec_pending() > v.spec_reserve() {
            "arithmetic"@
        } else if shares@ * v.spec_liquid() > amount_max() {
            "arithmetic"@
        } else if window is None {
            "missing_window"@
        } else if !window->0.spec_spec().spec_contains(day) {
            "window_closed"@
        } else if day@ + window->0.spec_spec().spec_unlock_delay() > u64::MAX {
            "arithmetic"@
        } else {
            Seq::empty()
        }
    }

    /// The detail text of the error a redemption request is refused with
    /// before anything changes, for the refusals of `request_refusal`.
    pub open spec fn request_refusal_detail(&self, account: AccountId, vault: VaultId, shares: Amount, kind: RedemptionKind) -> Seq<char> {
        let day = self.spec_day();
        let accts = self.spec_accounts().spec_accounts();
        let a = accts[account@];
        let tier = a.spec_tier();
        let v = self.spec_vaults()[vault@];
        let policy = v.spec_policy();
        let pp = policy.spec_priority();
        let projected = self.spec_limits().spec_bucket(account, vault, day).spec_active() + shares@;
        let cap = self.spec_capacity().spec_bucket(vault, day);
        let window = window_for(v.spec_config().window_entries(), kind);
        let account_text = "acct-"@ + decimal(account@ as nat);
        if !accts.contains_key(account@) {
            account_text
        } else if !self.spec_vaults().contains_key(vault@) {
            "vault-"@ + decimal(vault@ as nat)
        } else if !policy.spec_valid_amount(shares) {
            policy.amount_refusal(shares)
        } else if kind is Priority && !tier.spec_may_use_priority() {
            "account "@ + account_text + " cannot use priority lane"@
        } else if a.spec_portfolio().spec_share(vault) < shares@ {
            "account "@ + account_text + " shares below "@ + decimal(shares@)
        } else if self.spec_queue().spec_items(vault).len() >= pp.spec_max_queue_depth() {
            "vault "@ + "vault-"@ + decimal(vault@ as nat) + " queue is full"@
        } else if projected > amount_max() {
            "amount addition overflow"@
        } else if projected > policy.spec_daily_limits().spec_for_tier(tier)@ {
            "daily limit "@ + decimal(policy.spec_daily_limits().spec_for_tier(tier)@) + " exceeded by projected "@
                + decimal(projected as nat)
        } else if kind is Priority && projected > pp.spec_per_user()@ {
            "priority limit "@ + decimal(pp.spec_per_user()@) + " exceeded by projected "@ + decimal(projected as nat)
        } else if kind is Priority && !(0 <= cap.spec_net() <= pp.spec_daily_capacity()@) {
            "amount subtraction underflow"@
        } else if kind is Priority && pp.spec_daily_capacity()@ - cap.spec_net() < shares@ {
            "priority capacity "@ + decimal((pp.spec_daily_capacity()@ - cap.spec_net()) as nat) + " below request "@
                + decimal(shares@)
        } else if v.spec_total_shares() == 0 {
            "vault has no shares"@
        } else if v.spec_pending() > v.spec_reserve() {
            "amount subtraction underflow"@
        } else if shares@ * v.spec_liquid() > amount_max() {
            "amount multiplication overflow"@
        } else if window is None {
            "vault-"@ + decimal(vault@ as nat)
        } else if !window->0.spec_spec().spec_contains(day) {
            "window "@ + "win-"@ + decimal(window->0.spec_id()@ as nat) + " is closed for day "@ + decimal(day@ as nat)
        } else if day@ + window->0.spec_spec().spec_unlock_delay() > u64::MAX {
            "epoch day overflow"@
        } else {
            Seq::empty()
        }
    }

    /// The window of the vault that serves `kind`: the first one of the
    /// matching kind, else the first one; fails with `MissingWindow` when
    /// the vault has none.
    fn select_window(&self, vault: VaultId, kind: RedemptionKind) -> (r: CrownResult<UnlockWindow>)
        requires
            self.wf(),
            self.spec_vaults().contains_key(vault@),
        ensures
            ({
                let ws = self.spec_vaults()[vault@].spec_config().window_entries();
                &&& window_for(ws, kind) matches Some(w) ==> r == Ok::<UnlockWindow, CrownError>(w)
                &&& window_for(ws, kind) is None ==> (r matches Err(e) && e is MissingWindow
                    && e.spec_detail() == "vault-"@ + decimal(vault@ as nat))
            }),
    {
        let state = self.vault(vault)?;
        let windows = state.config().windows();
        let ghost ws = state.spec_config().window_entries();
        let wk = match kind {
            RedemptionKind::Priority => WindowKind::Priority,
            RedemptionKind::Standard => WindowKind::Standard,
        };
        let mut i: usize = 0;
        while i < windows.len()
            invariant
                windows@ == ws.map_values(|e: (u64, UnlockWindow)| e.1),
                ws == self.spec_vaults()[vault@].spec_config().window_entries(),
                i <= ws.len(),
                wk == window_kind_of(kind),
                window_from(ws, 0, wk) == window_from(ws, i as int, wk),
            decreases ws.len() - i,
        {
            let window = windows[i];
            proof { assert(window == ws[i as int].1); }
            let matched = match (kind, window.kind()) {
                (RedemptionKind::Priority, WindowKind::Priority) => true,
                (RedemptionKind::Standard, WindowKind::Standard) => true,
                _ => false,
            };
            if matched {
                return Ok(window);
            }
            i = i + 1;
        }
        state.config().first_window()
    }

    /// Runs the read-only checks of a redemption request and works out its
    /// tier, policy, asset, quote, window and unlock day.
    fn request_checks(&self, account: AccountId, vault: VaultId, shares: Amount, kind: RedemptionKind) -> (r:
        CrownResult<(AccountTier, RedemptionPolicy, AssetId, Amount, UnlockWindow, EpochDay)>)
        requires
            self.wf(),
        ensures
            self.request_refusal(account, vault, shares, kind).len() != 0 ==> (r matches Err(e) && e.spec_code()
                == self.request_refusal(account, vault, shares, kind) && e.spec_detail()
                == self.request_refusal_detail(account, vault, shares, kind)),
            self.request_refusal(account, vault, shares, kind).len() == 0 ==> (r matches Ok(p) && {
                let v = self.spec_vaults()[vault@];
                let w = window_for(v.spec_config().window_entries(), kind)->0;
                &&& p.0 == self.spec_accounts().spec_accounts()[account@].spec_tier()
                &&& p.1 == v.spec_policy()
                &&& p.2 == v.spec_asset()
                &&& p.3@ == quote_of(v, shares)
                &&& p.4 == w
                &&& p.5@ == self.spec_day()@ + w.spec_spec().spec_unlock_delay()
            }),
    {
        proof {
            reveal_strlit("missing_account");
            reveal_strlit("missing_vault");
            reveal_strlit("invalid_amount");
            reveal_strlit("invalid_lane");
            reveal_strlit("insufficient_shares");
            reveal_strlit("queue_capacity");
            reveal_strlit("arithmetic");
            reveal_strlit("limit_exceeded");
            reveal_strlit("missing_window");
            reveal_strlit("window_closed");
            self.accounts.lemma_wf();
            self.limits.lemma_active_nonnegative(account, vault, self.spec_day());
        }
        let day = self.clock.day();
        let account_view = self.accounts.get(account)?;
        let tier = account_view.tier();
        let balance = account_view.portfolio().share_balance(vault);
        let state = self.vault(vault)?;
        let policy = state.policy();
        let asset = state.asset();
        policy.validate_amount(shares)?;
        let priority = match kind {
            RedemptionKind::Priority => true,
            RedemptionKind::Standard => false,
        };
        if priority && !tier.may_use_priority() {
            let msg = String::from_str("account ").concat(account.label().as_str()).concat(
                " cannot use priority lane",
            );
            return Err(CrownError::InvalidLane(msg));
        }
        if balance.raw() < shares.raw() {
            let msg = String::from_str("account ").concat(account.label().as_str()).concat(
                " shares below ",
            ).concat(shares.to_text().as_str());
            return Err(CrownError::InsufficientShares(msg));
        }
        if self.queue.depth(vault) >= policy.priority().max_queue_depth() {
            let msg = String::from_str("vault ").concat(vault.label().as_str()).concat(" queue is full");
            return Err(CrownError::QueueCapacity(msg));
        }
        let projected_daily = self.limits.active_for(account, vault, day)?.checked_add(shares)?;
        let daily_limit = policy.daily_limits().for_tier(tier);
        if projected_daily.raw() > daily_limit.raw() {
            let msg = String::from_str("daily limit ").concat(daily_limit.to_text().as_str()).concat(
                " exceeded by projected ",
            ).concat(projected_daily.to_text().as_str());
            return Err(CrownError::LimitExceeded(msg));
        }
        if priority {
            let per_user = policy.priority().per_user_priority_limit();
            if projected_daily.raw() > per_user.raw() {
                let msg = String::from_str("priority limit ").concat(per_user.to_text().as_str()).concat(
                    " exceeded by projected ",
                ).concat(projected_daily.to_text().as_str());
                return Err(CrownError::LimitExceeded(msg));
            }
            let available = self.capacity.available(vault, day, policy.priority())?;
            if available.raw() < shares.raw() {
                let msg = String::from_str("priority capacity ").concat(available.to_text().as_str()).concat(
                    " below request ",
                ).concat(shares.to_text().as_str());
                return Err(CrownError::QueueCapacity(msg));
            }
        }
        let quoted_assets = state.quote_redemption(shares)?;
        let window = self.select_window(vault, kind)?;
        if !window.accepts(day) {
            let msg = String::from_str("window ").concat(window.id().label().as_str()).concat(
                " is closed for day ",
            ).concat(crate::text::decimal_string(day.raw() as u128).as_str());
            return Err(CrownError::WindowClosed(msg));
        }
        let unlock_day = window.unlock_day(day)?;
        Ok((tier, policy, asset, quoted_assets, window, unlock_day))
    }

    /// The error code an accepted request still fails with once it has
    /// started changing balances; empty when it goes through.
    pub open spec fn request_late_refusal(&self, account: AccountId, vault: VaultId, shares: Amount, kind: RedemptionKind) -> Seq<char> {
        let day = self.spec_day();
        let v = self.spec_vaults()[vault@];
        if self.spec_limits().spec_bucket(account, vault, day).spec_requested() + shares@ > amount_max() {
            "arithmetic"@
        } else if kind is Priority && self.spec_capacity().spec_bucket(vault, day).spec_consumed() + shares@ > amount_max() {
            "arithmetic"@
        } else if v.spec_total_shares() < shares@ {
            "invariant"@
        } else if v.spec_pending() + quote_of(v, shares) > amount_max() {
            "arithmetic"@
        } else {
            Seq::empty()
        }
    }

    /// The text of the error of `request_late_refusal`.
    pub open spec fn request_late_detail(&self, account: AccountId, vault: VaultId, shares: Amount, kind: RedemptionKind) -> Seq<char> {
        let day = self.spec_day();
        let v = self.spec_vaults()[vault@];
        if self.spec_limits().spec_bucket(account, vault, day).spec_requested() + shares@ > amount_max() {
            "amount addition overflow"@
        } else if kind is Priority && self.spec_capacity().spec_bucket(vault, day).spec_consumed() + shares@ > amount_max() {
            "amount addition overflow"@
        } else if v.spec_total_shares() < shares@ {
            "vault "@ + "vault-"@ + decimal(vault@ as nat) + " shares "@ + decimal(v.spec_total_shares()) + " below burn "@
                + decimal(shares@)
        } else {
            "amount addition overflow"@
        }
    }

    /// `self` is `pre` after an accepted redemption request took effect:
    /// shares moved from the account into a queued ticket, the limit (and
    /// for the priority lane the capacity) consumed, the queue extended and,
    /// for the priority lane, a claim filed.
    pub open spec fn request_applied(&self, pre: &Self, account: AccountId, vault: VaultId, shares: Amount, kind: RedemptionKind) -> bool {
        let day = pre.spec_day();
        let id = RedemptionId::spec_new((pre.ids().last_redemption() + 1) as u64);
        let a = pre.spec_accounts().spec_accounts()[account@];
        let na = self.spec_accounts().spec_accounts()[account@];
        let v = pre.spec_vaults()[vault@];
        let nv = self.spec_vaults()[vault@];
        let w = window_for(v.spec_config().window_entries(), kind)->0;
        let unlock = EpochDay::spec_new((day@ + w.spec_spec().spec_unlock_delay()) as u64);
        let quoted = Amount::spec_new(quote_of(v, shares) as u128);
        let seq = (pre.spec_queue().spec_sequence(vault) + 1) as u64;
        let b = pre.spec_limits().spec_bucket(account, vault, day);
        let nb = self.spec_limits().spec_bucket(account, vault, day);
        let c = pre.spec_capacity().spec_bucket(vault, day);
        let nc = self.spec_capacity().spec_bucket(vault, day);
        let item = self.spec_queue().spec_items(vault).last();
        &&& self.changes_only(pre, false, true, true, true, kind is Priority, true, kind is Priority)
        &&& account_replaced(self.spec_accounts(), pre.spec_accounts(), account@, na)
        &&& shares@ <= a.spec_portfolio().spec_share(vault)
        &&& shares_set(a, na, set_or_drop(a.spec_portfolio().shares_view(), vault@,
            Amount::spec_new((a.spec_portfolio().spec_share(vault) - shares@) as u128)))
        &&& self.spec_vaults() == pre.spec_vaults().insert(vault@, nv)
        &&& nv.spec_config() == v.spec_config()
        &&& nv.spec_reserve() == v.spec_reserve()
        &&& nv.spec_total_shares() == v.spec_total_shares() - shares@
        &&& nv.spec_pending() == v.spec_pending() + quote_of(v, shares)
        &&& nv.spec_tickets() == v.spec_tickets().insert(id@, nv.spec_tickets()[id@])
        &&& nv.spec_tickets()[id@].made_from(RedemptionTicketDraft {
            id,
            account,
            vault,
            asset: v.spec_asset(),
            shares,
            quoted_assets: quoted,
            kind,
            requested_day: day,
            unlock_day: unlock,
            window: w.spec_id(),
            sequence: seq,
        })
        &&& self.spec_queue().same_except(&pre.spec_queue(), vault)
        &&& self.spec_queue().spec_sequence(vault) == seq
        &&& self.spec_queue().spec_items(vault) == pre.spec_queue().spec_items(vault).push(item)
        &&& item.made_from(QueueRequest {
            redemption_id: id,
            account,
            vault,
            amount: shares,
            lane: kind.spec_lane(),
            tier: a.spec_tier(),
            requested_day: day,
            window: w.spec_id(),
        }, seq)
        &&& self.spec_limits().same_except(&pre.spec_limits(), account, vault, day)
        &&& nb.spec_requested() == b.spec_requested() + shares@
        &&& nb.spec_released() == b.spec_released()
        &&& nb.spec_completed() == b.spec_completed()
        &&& kind is Priority ==> self.spec_capacity().same_except(&pre.spec_capacity(), vault, day)
            && nc.spec_consumed() == c.spec_consumed() + shares@ && nc.spec_released() == c.spec_released()
        &&& kind is Priority ==> self.spec_claims().spec_claims() == pre.spec_claims().spec_claims().insert(
            id@,
            self.spec_claims().spec_claims()[id@],
        ) && self.spec_claims().spec_claims()[id@].made_from(PriorityClaimDraft {
            redemption_id: id,
            account,
            vault,
            asset: v.spec_asset(),
            amount: quoted,
            unlock_day: unlock,
            window: w.spec_id(),
            lane: kind.spec_lane(),
        })
    }

    /// The changes of an accepted redemption request, in the order the
    /// protocol makes them; a late failure leaves the earlier ones in place.
    fn apply_request(
        &mut self,
        account: AccountId,
        vault: VaultId,
        shares: Amount,
        kind: RedemptionKind,
        plan: (AccountTier, RedemptionPolicy, AssetId, Amount, UnlockWindow, EpochDay),
    ) -> (r: CrownResult<RedemptionId>)
        requires
            old(self).wf(),
            old(self).ids().last_redemption() < u64::MAX,
            old(self).request_refusal(account, vault, shares, kind).len() == 0,
            ({
                let v = old(self).spec_vaults()[vault@];
                let w = window_for(v.spec_config().window_entries(), kind)->0;
                &&& plan.0 == old(self).spec_accounts().spec_accounts()[account@].spec_tier()
                &&& plan.1 == v.spec_policy()
                &&& plan.2 == v.spec_asset()
                &&& plan.3@ == quote_of(v, shares)
                &&& plan.4 == w
                &&& plan.5@ == old(self).spec_day()@ + w.spec_spec().spec_unlock_delay()
            }),
        ensures
            final(self).wf(),
            final(self).spec_config() == old(self).spec_config(),
            final(self).spec_day() == old(self).spec_day(),
            final(self).spec_assets() == old(self).spec_assets(),
            final(self).spec_events() == old(self).spec_events(),
            final(self).ids_moved(old(self), 0, 0, 0, 1, 0, 0),
            old(self).request_late_refusal(account, vault, shares, kind).len() != 0 ==> (r matches Err(e)
                && e.spec_code() == old(self).request_late_refusal(account, vault, shares, kind)
                && e.spec_detail() == old(self).request_late_detail(account, vault, shares, kind)),
            old(self).request_late_refusal(account, vault, shares, kind).len() == 0 ==> (r == Ok::<RedemptionId, CrownError>(
                RedemptionId::spec_new((old(self).ids().last_redemption() + 1) as u64),
            ) && final(self).request_applied(old(self), account, vault, shares, kind)),
            old(self).request_late_refusal(account, vault, shares, kind).len() == 0 && old(self).shares_balanced()
                ==> final(self).shares_balanced(),
    {
        proof {
            reveal_strlit("arithmetic");
            reveal_strlit("invariant");
            lemma_error_codes();
            lemma_counter_names();
            self.accounts.lemma_wf();
            self.lemma_vault_ids(vault@);
            self.limits.lemma_active_nonnegative(account, vault, self.spec_day());
            self.capacity.lemma_net_nonnegative(vault, self.spec_day());
        }
        let (tier, policy, asset, quoted_assets, window, unlock_day) = plan;
        let day = self.clock.day();
        let priority = match kind {
            RedemptionKind::Priority => true,
            RedemptionKind::Standard => false,
        };
        let redemption_id = self.ledger.next_redemption();
        proof {
            RedemptionId::lemma_view(redemption_id, RedemptionId::spec_new(redemption_id@), redemption_id@);
            self.lemma_wf_from(old(self));
        }
        let ghost s1 = *self;
        let consumed = self.limits.consume(account, vault, tier, day, shares, policy.daily_limits());
        proof { self.lemma_wf_from(&s1); }
        consumed?;
        let ghost s2 = *self;
        if priority {
            let used = self.capacity.consume(vault, day, shares, policy.priority());
            proof { self.lemma_wf_from(&s2); }
            used?;
        }
        proof { self.lemma_wf_from(&s2); }
        let ghost s3 = *self;
        match self.accounts.get_mut(account) {
            Ok(a) => {
                let d = a.portfolio_mut().debit_shares(vault, shares);
                proof { assert(d is Ok); }
            },
            Err(e) => {
                return Err(e);
            },
        }
        proof {
            assert(self.spec_accounts().spec_accounts().dom() =~= s3.spec_accounts().spec_accounts().dom());
            self.lemma_wf_from(&s3);
            self.lemma_vault_ids(vault@);
        }
        let ghost s4 = *self;
        self.vault_mut(vault)?.burn_shares_for_redemption(shares)?;
        proof { self.lemma_vault_ids(vault@); }
        let ghost s5 = *self;
        proof {
            assert(s5.spec_queue() == old(self).spec_queue());
            assert(s5.ids().last_redemption() == old(self).ids().last_redemption() + 1);
            assert(old(self).spec_queue().spec_sequence(vault) <= old(self).ids().last_redemption());
        }
        let item = self.queue.enqueue(
            QueueRequest {
                redemption_id,
                account,
                vault,
                amount: shares,
                lane: kind.lane(),
                tier,
                requested_day: day,
                window: window.id(),
            },
            policy.priority().max_queue_depth(),
        )?;
        proof {
            assert forall|v: VaultId| #[trigger] self.spec_queue().spec_sequence(v) <= self.ids().last_redemption() by {
                if v != vault {
                    assert(self.spec_queue().spec_items(v) == s5.spec_queue().spec_items(v));
                    assert(s5.spec_queue().spec_sequence(v) <= s5.ids().last_redemption());
                } else {
                    assert(old(self).spec_queue().spec_sequence(vault) <= old(self).ids().last_redemption());
                }
            }
            self.lemma_wf_from(&s5);
            self.lemma_vault_ids(vault@);
        }
        let ghost s6 = *self;
        let ticket = RedemptionTicket::from_draft(
            RedemptionTicketDraft {
                id: redemption_id,
                account,
                vault,
                asset,
                shares,
                quoted_assets,
                kind,
                requested_day: day,
                unlock_day,
                window: window.id(),
                sequence: item.sequence(),
            },
        );
        self.vault_mut(vault)?.insert_ticket(ticket)?;
        let ghost s7 = *self;
        if priority {
            let claim = PriorityClaim::from_draft(
                PriorityClaimDraft {
                    redemption_id,
                    account,
                    vault,
                    asset,
                    amount: quoted_assets,
                    unlock_day,
                    window: window.id(),
                    lane: kind.lane(),
                },
            );
            proof {
                if self.claims.spec_claims().contains_key(redemption_id@) {
                    assert(old(self).spec_claims().spec_claims().contains_key(redemption_id@));
                }
            }
            self.claims.insert(claim)?;
            proof {
                assert forall|t: u64| #[trigger] self.spec_claims().spec_claims().contains_key(t) implies t <= self.ids().last_redemption() by {
                    if t != redemption_id@ {
                        assert(s7.spec_claims().spec_claims().contains_key(t));
                    }
                }
                self.lemma_wf_from(&s7);
            }
        }
        proof {
            let pre = old(self);
            let id = RedemptionId::spec_new((pre.ids().last_redemption() + 1) as u64);
            assert(id == redemption_id);
            assert(self.changes_only(pre, false, true, true, true, kind is Priority, true, kind is Priority));
            let a = pre.spec_accounts().spec_accounts()[account@];
            let na = self.spec_accounts().spec_accounts()[account@];
            assert(account_replaced(self.spec_accounts(), pre.spec_accounts(), account@, na));
            assert(shares_set(a, na, set_or_drop(a.spec_portfolio().shares_view(), vault@,
                Amount::spec_new((a.spec_portfolio().spec_share(vault) - shares@) as u128))));
            let v = pre.spec_vaults()[vault@];
            let nv = self.spec_vaults()[vault@];
            assert(self.spec_vaults() == pre.spec_vaults().insert(vault@, nv));
            assert(nv.spec_config() == v.spec_config());
            assert(nv.spec_total_shares() == v.spec_total_shares() - shares@);
            assert(nv.spec_pending() == v.spec_pending() + quote_of(v, shares));
            assert(nv.spec_tickets() == v.spec_tickets().insert(id@, nv.spec_tickets()[id@]));
            assert(self.spec_queue().same_except(&pre.spec_queue(), vault));
            assert(self.spec_limits().same_except(&pre.spec_limits(), account, vault, day));
            let w = window_for(v.spec_config().window_entries(), kind)->0;
            let unlock = EpochDay::spec_new((day@ + w.spec_spec().spec_unlock_delay()) as u64);
            let quoted = Amount::spec_new(quote_of(v, shares) as u128);
            let seq = (pre.spec_queue().spec_sequence(vault) + 1) as u64;
            EpochDay::lemma_view(unlock_day, unlock, (day@ + w.spec_spec().spec_unlock_delay()) as u64);
            assert(unlock == unlock_day);
            assert(quoted == quoted_assets);
            assert(w == window);
            assert(seq == item.spec_sequence());
            assert(self.spec_queue().spec_sequence(vault) == seq);
            assert(self.spec_queue().spec_items(vault).last() == item);
            assert(self.spec_queue().spec_items(vault) == pre.spec_queue().spec_items(vault).push(item));
            let b = pre.spec_limits().spec_bucket(account, vault, day);
            let nb = self.spec_limits().spec_bucket(account, vault, day);
            assert(nb.spec_requested() == b.spec_requested() + shares@);
            assert(nv.spec_tickets()[id@] == ticket);
            if pre.shares_balanced() {
                assert forall|x: u64| #[trigger] balance_of(na.spec_portfolio().shares_view(), x)
                    == balance_of(a.spec_portfolio().shares_view(), x) + if x == vault@ { -(shares@ as int) } else { 0 } by {}
                self.lemma_balanced_move(pre, account@, vault@, -(shares@ as int));
            }
        }
        Ok(redemption_id)
    }

    /// Requests the redemption of `shares` of the vault for the account,
    /// in the lane of `kind`: the shares leave the account for a queued
    /// ticket quoted at the vault's current share price, the day's limit is
    /// consumed (and for the priority lane the day's priority capacity, with
    /// a claim filed), the request is journaled and the reconciliation checks
    /// run. The refusals of `request_refusal` leave everything unchanged; the
    /// failures of `request_late_refusal` come after some balances have
    /// already changed, which are left so. The ticket unlocks after the delay
    /// the vault's policy sets for its lane; a request that goes through
    /// keeps a backed engine backed, and on a consistent engine that passed
    /// the checks it succeeds.
    pub fn request_redemption(&mut self, account: AccountId, vault: VaultId, shares: Amount, kind: RedemptionKind) -> (r:
        CrownResult<RequestReceipt>)
        requires
            old(self).wf(),
            old(self).ids().last_redemption() < u64::MAX,
            old(self).journal_room(3),
        ensures
            final(self).wf(),
            ({
                let refusal = old(self).request_refusal(account, vault, shares, kind);
                let late = old(self).request_late_refusal(account, vault, shares, kind);
                let id = RedemptionId::spec_new((old(self).ids().last_redemption() + 1) as u64);
                let v = old(self).spec_vaults()[vault@];
                let w = window_for(v.spec_config().window_entries(), kind)->0;
                let unlock = EpochDay::spec_new((old(self).spec_day()@ + w.spec_spec().spec_unlock_delay()) as u64);
                let quoted = Amount::spec_new(quote_of(v, shares) as u128);
                let day = old(self).spec_day();
                let tier = old(self).spec_accounts().spec_accounts()[account@].spec_tier();
                let pp = v.spec_policy().spec_priority();
                &&& r is Ok ==> final(self).spec_limits().spec_bucket(account, vault, day).spec_active()
                    <= v.spec_policy().spec_daily_limits().spec_for_tier(tier)@
                &&& r is Ok && kind is Priority ==> final(self).spec_limits().spec_bucket(account, vault, day).spec_active()
                    <= pp.spec_per_user()@ && final(self).spec_capacity().spec_bucket(vault, day).spec_net()
                    <= pp.spec_daily_capacity()@
                &&& refusal.len() != 0 ==> (r matches Err(e) && e.spec_code() == refusal && e.spec_detail()
                    == old(self).request_refusal_detail(account, vault, shares, kind) && *final(self) == *old(self))
                &&& refusal.len() == 0 && late.len() != 0 ==> (r matches Err(e) && e.spec_code() == late
                    && e.spec_detail() == old(self).request_late_detail(account, vault, shares, kind))
                &&& refusal.len() == 0 && late.len() == 0 && old(self).shares_balanced() ==> final(self).shares_balanced()
                &&& r matches Ok(receipt) ==> receipt.unlock_day == EpochDay::spec_new(
                    (old(self).spec_day()@ + policy_delay(v, kind)) as u64)
                &&& refusal.len() == 0 && late.len() == 0 && old(self).backed() ==> final(self).backed() && final(self).covered()
                &&& refusal.len() == 0 && late.len() == 0 && old(self).consistent() && old(self).passes_checks() ==> r is Ok
                &&& refusal.len() == 0 && late.len() == 0 ==> (final(self).request_applied(old(self), account, vault, shares, kind)
                    && final(self).ids_moved(old(self), 0, 0, 0, 1, 0, 1 + final(self).check_event_count())
                    && final(self).spec_events() == old(self).spec_events().push(EventView {
                        account: Some(account),
                        vault: Some(vault),
                        asset: Some(v.spec_asset()),
                        redemption: Some(id),
                        window: Some(w.spec_id()),
                        amount: Some(shares),
                        ..note_event((old(self).last_journal() + 1) as u64, old(self).spec_day(), EventKind::RedemptionRequested, kind.spec_label())
                    }) + check_events(old(self).spec_day(), (old(self).last_journal() + 1) as u64, final(self).check_event_count())
                    && (r is Ok <==> final(self).passes_checks())
                    && (r matches Ok(receipt) ==> receipt == (RequestReceipt {
                        redemption_id: id,
                        account,
                        vault,
                        kind,
                        shares,
                        quoted_assets: quoted,
                        unlock_day: unlock,
                    }))
                    && (r matches Err(e) ==> (e is Arithmetic && !final(self).totals_fit()) || (e is Invariant
                        && final(self).totals_fit()))
                    && (r matches Err(e) ==> (e is Invariant ==> e.spec_detail() == final(self).check_detail())
                        && (e is Arithmetic ==> e.spec_detail() == "amount addition overflow"@)))
            }),
    {
        let plan = self.request_checks(account, vault, shares, kind)?;
        let (_, _, asset, quoted_assets, window, unlock_day) = plan;
        let day = self.clock.day();
        let redemption_id = self.apply_request(account, vault, shares, kind, plan)?;
        let ghost applied = *self;
        let event = self.ledger.event(day, EventKind::RedemptionRequested).account(account).vault(vault).asset(
            asset,
        ).redemption(redemption_id).window(window.id()).amount(shares).note(kind.label()).build();
        proof {
            let j = self.last_journal();
            JournalId::lemma_view(event@.id, JournalId::spec_new(j), j);
            lemma_counter_names();
        }
        self.ledger.record(event);
        let ghost mid = *self;
        proof { self.lemma_wf_from(&mid); }
        let r = self.check_invariants();
        proof {
            self.lemma_checks_same(&mid);
            assert(self.spec_events() =~= old(self).spec_events().push(event@) + check_events(old(self).spec_day(), (old(self).last_journal() + 1) as u64, self.check_event_count()));
            self.lemma_request_applied_ledger(&applied, old(self), account, vault, shares, kind);
            let v = old(self).spec_vaults()[vault@];
            let w = window_for(v.spec_config().window_entries(), kind)->0;
            let x = (old(self).spec_day()@ + w.spec_spec().spec_unlock_delay()) as u64;
            EpochDay::lemma_view(unlock_day, EpochDay::spec_new(x), x);
        }
        proof {
            let pre = old(self);
            if pre.request_refusal(account, vault, shares, kind).len() == 0 && pre.request_late_refusal(account, vault, shares, kind).len() == 0 {
                if pre.backed() {
                    Self::law_request_keeps_backing(pre, self, account, vault, shares, kind);
                    if pre.shares_balanced() && pre.passes_checks() {
                        let na = self.spec_accounts().spec_accounts()[account@];
                        self.lemma_assets_same(pre, account@);
                        self.lemma_consistent_passes(pre);
                    }
                }
            }
        }
        proof {
            let pre = old(self);
            let refusal = pre.request_refusal(account, vault, shares, kind);
            lemma_error_codes();
            if refusal.len() == 0 {
                assert(pre.spec_vaults().contains_key(vault@));
                let day = pre.spec_day();
                let v = pre.spec_vaults()[vault@];
                let tier = pre.spec_accounts().spec_accounts()[account@].spec_tier();
                let pp = v.spec_policy().spec_priority();
                let projected = pre.spec_limits().spec_bucket(account, vault, day).spec_active() + shares@;
                let cap = pre.spec_capacity().spec_bucket(vault, day);
                assert(projected <= v.spec_policy().spec_daily_limits().spec_for_tier(tier)@);
                assert(kind is Priority ==> projected <= pp.spec_per_user()@);
                assert(kind is Priority ==> cap.spec_net() + shares@ <= pp.spec_daily_capacity()@);
            }
        }
        r?;
        Ok(RequestReceipt { redemption_id, account, vault, kind, shares, quoted_assets, unlock_day })
    }

    /// The vault, in identifier order, that first holds a ticket of the
    /// redemption.
    pub open spec fn ticket_home(&self, id: RedemptionId) -> Option<u64> {
        home_from(self.vault_entries(), 0, id@)
    }

    /// The ticket of the redemption, looked up vault by vault in identifier
    /// order.
    proof fn lemma_home(&self, id: RedemptionId)
        requires
            self.wf(),
        ensures
            self.ticket_home(id) matches Some(k) ==> self.spec_vaults().contains_key(k)
                && self.spec_vaults()[k].spec_tickets().contains_key(id@),
    {
        self.lemma_home_from(id, 0);
    }

    proof fn lemma_home_from(&self, id: RedemptionId, i: int)
        requires
            self.wf(),
            0 <= i <= self.vault_entries().len(),
        ensures
            home_from(self.vault_entries(), i, id@) matches Some(k) ==> self.spec_vaults().contains_key(k)
                && self.spec_vaults()[k].spec_tickets().contains_key(id@),
        decreases self.vault_entries().len() - i,
    {
        let vs = self.vault_entries();
        if i < vs.len() {
            self.lemma_vault_entry(i);
            self.lemma_home_from(id, i + 1);
        }
    }

    /// A ticket held by exactly one vault is found in that vault.
    pub proof fn lemma_home_unique(&self, id: RedemptionId, k: u64)
        requires
            self.wf(),
            self.spec_vaults().contains_key(k),
            self.spec_vaults()[k].spec_tickets().contains_key(id@),
            forall|j: u64| #[trigger] self.spec_vaults().contains_key(j) && j != k
                ==> !self.spec_vaults()[j].spec_tickets().contains_key(id@),
        ensures
            self.ticket_home(id) == Some(k),
    {
        let p = self.vaults.lemma_key(k);
        self.lemma_home_before(id, k, p, 0);
    }

    proof fn lemma_home_before(&self, id: RedemptionId, k: u64, p: int, i: int)
        requires
            self.wf(),
            0 <= i <= p < self.vault_entries().len(),
            self.vault_entries()[p].0 == k,
            self.spec_vaults()[k].spec_tickets().contains_key(id@),
            forall|j: u64| #[trigger] self.spec_vaults().contains_key(j) && j != k
                ==> !self.spec_vaults()[j].spec_tickets().contains_key(id@),
        ensures
            home_from(self.vault_entries(), i, id@) == Some(k),
        decreases p - i,
    {
        self.lemma_vault_entry(i);
        self.lemma_vault_entry(p);
        if i < p {
            self.lemma_home_before(id, k, p, i + 1);
        }
    }

    fn find_ticket(&self, redemption_id: RedemptionId) -> (r: CrownResult<&RedemptionTicket>)
        requires
            self.wf(),
        ensures
            self.ticket_home(redemption_id) matches Some(k) ==> (r matches Ok(t) && *t
                == self.spec_vaults()[k].spec_tickets()[redemption_id@]),
            self.ticket_home(redemption_id) is None ==> (r matches Err(e) && e is MissingTicket
                && e.spec_detail() == "rdm-"@ + decimal(redemption_id@ as nat)),
    {
        let n = self.vaults.len();
        let mut i: usize = 0;
        while i < n
            invariant
                self.wf(),
                n == self.vault_entries().len(),
                i <= n,
                self.ticket_home(redemption_id) == home_from(self.vault_entries(), i as int, redemption_id@),
            decreases n - i,
        {
            let (_, vault) = self.vaults.entry_at(i);
            proof { self.lemma_vault_entry(i as int); }
            match vault.ticket(redemption_id) {
                Ok(t) => {
                    return Ok(t);
                },
                Err(_) => {},
            }
            i = i + 1;
        }
        Err(CrownError::MissingTicket(redemption_id.label()))
    }

    /// The ticket of the redemption; fails with `MissingTicket` when no
    /// vault holds it.
    pub fn ticket(&self, redemption_id: RedemptionId) -> (r: CrownResult<&RedemptionTicket>)
        requires
            self.wf(),
        ensures
            self.ticket_home(redemption_id) matches Some(k) ==> (r matches Ok(t) && *t
                == self.spec_vaults()[k].spec_tickets()[redemption_id@]),
            self.ticket_home(redemption_id) is None ==> (r matches Err(e) && e is MissingTicket
                && e.spec_detail() == "rdm-"@ + decimal(redemption_id@ as nat)),
    {
        self.find_ticket(redemption_id)
    }

    /// The error code a cancellation fails with once the ticket was found;
    /// empty when it goes through.
    pub open spec fn cancel_late_refusal(&self, redemption_id: RedemptionId) -> Seq<char> {
        let k = self.ticket_home(redemption_id)->0;
        let v = self.spec_vaults()[k];
        let t = v.spec_tickets()[redemption_id@];
        let a = self.spec_accounts().spec_accounts()[t.spec_account()@];
        if !t.spec_status().spec_may_cancel() {
            "invalid_status"@
        } else if a.spec_portfolio().spec_share(t.spec_vault()) + t.spec_shares()@ > amount_max() {
            "arithmetic"@
        } else if v.spec_total_shares() + t.spec_shares()@ > amount_max() {
            "arithmetic"@
        } else if self.spec_limits().spec_bucket(t.spec_account(), t.spec_vault(), t.spec_requested_day()).spec_active()
            < t.spec_shares()@ {
            "invariant"@
        } else if t.spec_kind() is Priority && self.spec_capacity().spec_bucket(t.spec_vault(), t.spec_requested_day()).spec_net()
            < t.spec_shares()@ {
            "invariant"@
        } else {
            Seq::empty()
        }
    }

    /// A cancellation of `redemption_id` is owed success: some vault holds the
    /// ticket, none of the cancellation's refusals applies to it and the
    /// reconciliation checks pass.
    pub open spec fn cancel_owed(&self, redemption_id: RedemptionId) -> bool {
        &&& self.ticket_home(redemption_id) is Some
        &&& self.cancel_late_refusal(redemption_id).len() == 0
        &&& self.passes_checks()
    }

    /// The ticket a successful cancellation of `redemption_id` returns: the
    /// one its vault holds, marked cancelled.
    pub open spec fn cancelled_ticket(&self, redemption_id: RedemptionId) -> RedemptionTicket {
        self.spec_vaults()[self.ticket_home(redemption_id)->0].spec_tickets()[redemption_id@].with_status(
            RedemptionStatus::Cancelled,
        )
    }

    /// The text of the error of `cancel_late_refusal`.
    pub open spec fn cancel_late_detail(&self, redemption_id: RedemptionId) -> Seq<char> {
        let k = self.ticket_home(redemption_id)->0;
        let v = self.spec_vaults()[k];
        let t = v.spec_tickets()[redemption_id@];
        let a = self.spec_accounts().spec_accounts()[t.spec_account()@];
        let active = self.spec_limits().spec_bucket(t.spec_account(), t.spec_vault(), t.spec_requested_day()).spec_active();
        let net = self.spec_capacity().spec_bucket(t.spec_vault(), t.spec_requested_day()).spec_net();
        if !t.spec_status().spec_may_cancel() {
            t.status_detail(transition_verb(RedemptionStatus::Cancelled))
        } else if a.spec_portfolio().spec_share(t.spec_vault()) + t.spec_shares()@ > amount_max() {
            "amount addition overflow"@
        } else if v.spec_total_shares() + t.spec_shares()@ > amount_max() {
            "amount addition overflow"@
        } else if active < t.spec_shares()@ {
            "limit release "@ + decimal(t.spec_shares()@) + " exceeds active "@ + decimal(active as nat)
        } else {
            "capacity release "@ + decimal(t.spec_shares()@) + " exceeds net "@ + decimal(net as nat)
        }
    }

    /// Releasing one claim of a book lowers what it owes each vault, or
    /// keeps it.
    pub proof fn lemma_release_owed(s: Seq<(u64, PriorityClaim)>, i: int, c: PriorityClaim)
        requires
            0 <= i < s.len(),
            c == s[i].1.with_state(ClaimState::Released),
        ensures
            forall|k: u64| #[trigger] owed_claims(s.update(i, (s[i].0, c)), k) <= owed_claims(s, k),
    {
        s[i].1.lemma_with_state(ClaimState::Released);
        assert forall|k: u64| #[trigger] owed_claims(s.update(i, (s[i].0, c)), k) <= owed_claims(s, k) by {
            crate::idmap::lemma_sum_update(s, i, (s[i].0, c), |x: PriorityClaim| owed_to(x, k));
        }
    }

    /// Cancelling a redemption keeps every vault's reserve covering the
    /// claims still open on it.
    pub proof fn law_cancel_keeps_coverage(pre: &Self, post: &Self, redemption_id: RedemptionId)
        requires
            pre.wf(),
            pre.ticket_home(redemption_id) is Some,
            post.cancel_applied(pre, redemption_id),
        ensures
            pre.covered() ==> post.covered(),
            forall|k: u64| #[trigger] owed_claims(post.spec_claims().claim_entries(), k) <= owed_claims(
                pre.spec_claims().claim_entries(), k),
            forall|k: u64| #[trigger] post.reserve_of(k) == pre.reserve_of(k),
    {
        let claims = pre.spec_claims().spec_claims();
        let s = pre.spec_claims().claim_entries();
        if claims.contains_key(redemption_id@) && open_amount(claims[redemption_id@]) > 0 {
            let i = choose|i: int| 0 <= i < s.len() && s[i].0 == redemption_id@
                && post.spec_claims().claim_entries() == s.update(i, (redemption_id@, claims[redemption_id@].with_state(ClaimState::Released)));
            pre.lemma_wf_parts();
            pre.spec_claims().lemma_wf();
            Self::lemma_release_owed(s, i, claims[redemption_id@].with_state(ClaimState::Released));
        } else {
            assert(post.spec_claims() == pre.spec_claims());
        }
        let k0 = pre.ticket_home(redemption_id)->0;
        pre.lemma_home(redemption_id);
        assert forall|k: u64| #[trigger] post.reserve_of(k) == pre.reserve_of(k) by {
            if k != k0 && pre.spec_vaults().contains_key(k) {
                assert(post.spec_vaults()[k] == pre.spec_vaults()[k]);
            }
        }
        if pre.covered() {
            assert forall|k: u64| #[trigger] post.spec_vaults().contains_key(k) implies post.spec_vaults()[k].spec_reserve()
                >= owed_claims(post.spec_claims().claim_entries(), k) by {
                assert(pre.spec_vaults().contains_key(k));
                assert(post.reserve_of(k) == pre.reserve_of(k));
            }
        }
    }

    /// `self` is `pre` after the cancellation of the redemption took effect:
    /// the ticket is cancelled and out of the queue, its shares are back with
    /// the account and in the supply, its quote left the pending assets, its
    /// volume went back to the day's limit, for the priority lane its
    /// priority capacity was returned, and its pending claim, in either lane,
    /// was released.
    pub open spec fn cancel_applied(&self, pre: &Self, redemption_id: RedemptionId) -> bool {
        let k = pre.ticket_home(redemption_id)->0;
        let v = pre.spec_vaults()[k];
        let nv = self.spec_vaults()[k];
        let t = v.spec_tickets()[redemption_id@];
        let vid = t.spec_vault();
        let acct = t.spec_account();
        let a = pre.spec_accounts().spec_accounts()[acct@];
        let na = self.spec_accounts().spec_accounts()[acct@];
        let q = pre.spec_queue().spec_items(vid);
        let b = pre.spec_limits().spec_bucket(acct, vid, t.spec_requested_day());
        let nb = self.spec_limits().spec_bucket(acct, vid, t.spec_requested_day());
        let c = pre.spec_capacity().spec_bucket(vid, t.spec_requested_day());
        let nc = self.spec_capacity().spec_bucket(vid, t.spec_requested_day());
        let claims = pre.spec_claims().spec_claims();
        &&& self.changes_only(pre, false, true, true, true, true, true, t.spec_kind() is Priority)
        &&& (forall|i: int| 0 <= i < q.len() ==> (#[trigger] q[i]).spec_redemption_id() != redemption_id) ==> self.spec_queue() == pre.spec_queue()
        &&& (exists|i: int| 0 <= i < q.len() && (#[trigger] q[i]).spec_redemption_id() == redemption_id) ==> (
            self.spec_queue().same_except(&pre.spec_queue(), vid) && self.spec_queue().spec_sequence(vid)
            == pre.spec_queue().spec_sequence(vid) && exists|i: int| 0 <= i < q.len() && q[i].spec_redemption_id() == redemption_id
                && (forall|j: int| 0 <= j < i ==> (#[trigger] q[j]).spec_redemption_id() != redemption_id)
                && self.spec_queue().spec_items(vid) == q.remove(i))
        &&& self.spec_vaults() == pre.spec_vaults().insert(k, nv)
        &&& nv.spec_config() == v.spec_config()
        &&& nv.spec_reserve() == v.spec_reserve()
        &&& nv.spec_total_shares() == v.spec_total_shares() + t.spec_shares()@
        &&& nv.spec_pending() == v.spec_pending() - t.spec_quoted()@
        &&& nv.spec_tickets() == v.spec_tickets().insert(redemption_id@, t.with_status(RedemptionStatus::Cancelled))
        &&& account_replaced(self.spec_accounts(), pre.spec_accounts(), acct@, na)
        &&& shares_set(a, na, a.spec_portfolio().shares_view().insert(vid@,
            Amount::spec_new((a.spec_portfolio().spec_share(vid) + t.spec_shares()@) as u128)))
        &&& self.spec_limits().same_except(&pre.spec_limits(), acct, vid, t.spec_requested_day())
        &&& nb.spec_released() == b.spec_released() + t.spec_shares()@
        &&& nb.spec_requested() == b.spec_requested()
        &&& nb.spec_completed() == b.spec_completed()
        &&& t.spec_kind() is Priority ==> self.spec_capacity().same_except(&pre.spec_capacity(), vid, t.spec_requested_day())
            && nc.spec_released() == c.spec_released() + t.spec_shares()@ && nc.spec_consumed() == c.spec_consumed()
        &&& claims.contains_key(redemption_id@) && open_amount(claims[redemption_id@]) > 0
            ==> self.spec_claims().spec_claims() == claims.insert(redemption_id@, claims[redemption_id@].with_state(ClaimState::Released))
                && exists|i: int| 0 <= i < pre.spec_claims().claim_entries().len()
                    && pre.spec_claims().claim_entries()[i].0 == redemption_id@
                    && self.spec_claims().claim_entries() == pre.spec_claims().claim_entries().update(
                        i, (redemption_id@, claims[redemption_id@].with_state(ClaimState::Released)))
        &&& !(claims.contains_key(redemption_id@) && open_amount(claims[redemption_id@]) > 0)
            ==> self.spec_claims() == pre.spec_claims()
    }

    /// The ticket an accepted request files is found in its vault, and in no
    /// other.
    pub proof fn lemma_request_home(
        pre: CrownEngine,
        mid: CrownEngine,
        account: AccountId,
        vault: VaultId,
        shares: Amount,
        kind: RedemptionKind,
    )
        requires
            pre.wf(),
            pre.ids().last_redemption() < u64::MAX,
            mid.wf(),
            mid.request_applied(&pre, account, vault, shares, kind),
        ensures
            mid.ticket_home(RedemptionId::spec_new((pre.ids().last_redemption() + 1) as u64)) == Some(vault@),
    {
        let id = RedemptionId::spec_new((pre.ids().last_redemption() + 1) as u64);
        RedemptionId::lemma_view(id, id, (pre.ids().last_redemption() + 1) as u64);
        assert forall|j: u64| #[trigger] mid.spec_vaults().contains_key(j) && j != vault@
            implies !mid.spec_vaults()[j].spec_tickets().contains_key(id@) by {
            assert(mid.spec_vaults()[j] == pre.spec_vaults()[j]);
            assert(pre.spec_vaults().contains_key(j));
            pre.lemma_vault_ids(j);
            if pre.spec_vaults()[j].spec_tickets().contains_key(id@) {
                assert(id@ <= pre.ids().last_redemption());
            }
        }
        mid.lemma_home_unique(id, vault@);
    }

    /// A request is held to the daily limit of the requesting account's own
    /// tier: a request that none of the checks refuses keeps the day's
    /// projected volume within the standard, VIP or institutional limit of
    /// the vault's policy, as the account's tier says.
    pub proof fn law_request_held_to_own_tier(&self, account: AccountId, vault: VaultId, shares: Amount, kind: RedemptionKind)
        ensures
            ({
                let tier = self.spec_accounts().spec_accounts()[account@].spec_tier();
                let limits = self.spec_vaults()[vault@].spec_policy().spec_daily_limits();
                let own = match tier {
                    AccountTier::Standard => limits.spec_standard(),
                    AccountTier::Vip => limits.spec_vip(),
                    AccountTier::Institutional => limits.spec_institutional(),
                };
                let projected = self.spec_limits().spec_bucket(account, vault, self.spec_day()).spec_active() + shares@;
                self.request_refusal(account, vault, shares, kind).len() == 0 ==> projected <= own@
            }),
    {
        lemma_error_codes();
        let tier = self.spec_accounts().spec_accounts()[account@].spec_tier();
        self.spec_vaults()[vault@].spec_policy().spec_daily_limits().law_limit_of_own_tier(tier);
    }

    /// An accepted request keeps the engine backed: the new ticket's quote
    /// comes out of the vault's liquid reserve and, in the priority lane, the
    /// new claim is backed by the new ticket; so every vault's reserve still
    /// covers its open claims.
    pub proof fn law_request_keeps_backing(
        pre: &Self,
        post: &Self,
        account: AccountId,
        vault: VaultId,
        shares: Amount,
        kind: RedemptionKind,
    )
        requires
            pre.wf(),
            pre.ids().last_redemption() < u64::MAX,
            post.wf(),
            post.request_applied(pre, account, vault, shares, kind),
            pre.request_refusal(account, vault, shares, kind).len() == 0,
            pre.backed(),
        ensures
            post.backed(),
            post.covered(),
    {
        assert(pre.spec_vaults().contains_key(vault@) && shares@ > 0) by {
            lemma_error_codes();
        }
        let id = RedemptionId::spec_new((pre.ids().last_redemption() + 1) as u64);
        RedemptionId::lemma_view(id, id, (pre.ids().last_redemption() + 1) as u64);
        Self::law_request_keeps_pending_covered(pre, post, account, vault, shares, kind);
        let v = pre.spec_vaults()[vault@];
        let nv = post.spec_vaults()[vault@];
        assert forall|k: u64| #[trigger] post.spec_vaults().contains_key(k) implies post.spec_vaults()[k].spec_pending()
            <= post.spec_vaults()[k].spec_reserve() by {
            if k != vault@ {
                assert(post.spec_vaults()[k] == pre.spec_vaults()[k]);
                assert(pre.spec_vaults().contains_key(k));
            }
        }
        let pc = pre.spec_claims().spec_claims();
        let qc = post.spec_claims().spec_claims();
        assert forall|t: u64| #[trigger] qc.contains_key(t) && qc[t].spec_state() is Pending implies {
            let c = qc[t];
            let k = c.spec_vault()@;
            &&& post.spec_vaults().contains_key(k)
            &&& post.spec_vaults()[k].spec_tickets().contains_key(t)
            &&& post.spec_vaults()[k].spec_tickets()[t].spec_quoted() == c.spec_amount()
            &&& c.spec_amount()@ > 0 ==> post.spec_vaults()[k].spec_tickets()[t].spec_status().spec_may_cancel()
        } by {
            if kind is Priority && t == id@ {
                assert(nv.spec_tickets().contains_key(id@));
            } else {
                assert(pc.contains_key(t) && qc[t] == pc[t]);
                assert(t <= pre.ids().last_redemption());
                let k = pc[t].spec_vault()@;
                if k != vault@ {
                    assert(post.spec_vaults()[k] == pre.spec_vaults()[k]);
                } else {
                    assert(nv.spec_tickets()[t] == v.spec_tickets()[t]);
                }
            }
        }
        post.lemma_backed_covered();
    }

    /// Serving a vault's queue keeps the engine backed: the served tickets
    /// stay open with their quotes, each claim a standard ticket gets is
    /// backed by that ticket, and the pending assets and reserves do not
    /// move; so every vault's reserve still covers its open claims.
    pub proof fn law_process_keeps_backing(pre: &Self, post: &Self, vault: VaultId, max_items: nat)
        requires
            pre.wf(),
            post.wf(),
            pre.process_ok(vault, max_items),
            post.process_applied(pre, vault, max_items),
            pre.backed(),
        ensures
            post.backed(),
            post.covered(),
    {
        let s = service_order(pre.spec_queue().spec_items(vault), max_items);
        let present = pre.spec_vaults().contains_key(vault@);
        let v = pre.spec_vaults()[vault@];
        let m = v.spec_tickets();
        let c = pre.spec_claims().spec_claims();
        let nv = post.spec_vaults()[vault@];
        let qc = post.spec_claims().spec_claims();
        assert forall|k: u64| #[trigger] post.spec_vaults().contains_key(k) implies post.spec_vaults()[k].spec_pending()
            <= post.spec_vaults()[k].spec_reserve() by {
            assert(pre.spec_vaults().contains_key(k));
        }
        if present {
            pre.lemma_vault_ids(vault@);
        }
        assert forall|t: u64| #[trigger] qc.contains_key(t) && qc[t].spec_state() is Pending implies {
            let cl = qc[t];
            let k = cl.spec_vault()@;
            &&& post.spec_vaults().contains_key(k)
            &&& post.spec_vaults()[k].spec_tickets().contains_key(t)
            &&& post.spec_vaults()[k].spec_tickets()[t].spec_quoted() == cl.spec_amount()
            &&& cl.spec_amount()@ > 0 ==> post.spec_vaults()[k].spec_tickets()[t].spec_status().spec_may_cancel()
        } by {
            lemma_standard_claims_in(c, m, s, t);
            lemma_scheduled(m, s, t);
            if c.contains_key(t) && qc[t] == c[t] {
                let k = c[t].spec_vault()@;
                if k != vault@ || !present {
                    assert(post.spec_vaults()[k] == pre.spec_vaults()[k]);
                } else {
                    m[t].lemma_with_status(RedemptionStatus::PendingUnlock);
                }
            } else {
                let j = choose|j: int| 0 <= j < s.len() && (#[trigger] s[j]).spec_redemption_id()@ == t;
                assert(!serve_fails(m, c, s, j));
                assert(present);
                m[t].lemma_with_status(RedemptionStatus::PendingUnlock);
                let tk = m[t];
                PriorityClaim::lemma_from_draft(PriorityClaimDraft {
                    redemption_id: tk.spec_id(),
                    account: tk.spec_account(),
                    vault: tk.spec_vault(),
                    asset: tk.spec_asset(),
                    amount: tk.spec_quoted(),
                    unlock_day: tk.spec_unlock_day(),
                    window: tk.spec_window(),
                    lane: Lane::Standard,
                });
                assert(tk.spec_vault()@ == vault@);
            }
        }
        if present {
            assert forall|t: u64| #[trigger] nv.spec_tickets().contains_key(t) implies v.spec_tickets().contains_key(t) by {
                lemma_scheduled_dom(m, s, t);
                if !m.contains_key(t) {
                    let j = choose|j: int| 0 <= j < s.len() && (#[trigger] s[j]).spec_redemption_id()@ == t;
                    assert(!serve_fails(m, c, s, j));
                }
            }
            post.lemma_unique_from(pre, vault@, None);
        }
        post.lemma_backed_covered();
    }

    /// A cancellation keeps the engine backed: the cancelled ticket's claim,
    /// if it owed anything, is released, the other claims keep their
    /// tickets, and the pending assets only shrink.
    pub proof fn law_cancel_keeps_backing(pre: &Self, post: &Self, redemption_id: RedemptionId)
        requires
            pre.wf(),
            post.wf(),
            pre.ticket_home(redemption_id) is Some,
            post.cancel_applied(pre, redemption_id),
            pre.backed(),
        ensures
            post.backed(),
            post.covered(),
    {
        let k0 = pre.ticket_home(redemption_id)->0;
        pre.lemma_home(redemption_id);
        let v = pre.spec_vaults()[k0];
        let nv = post.spec_vaults()[k0];
        let tk = v.spec_tickets()[redemption_id@];
        tk.lemma_with_status(RedemptionStatus::Cancelled);
        let pc = pre.spec_claims().spec_claims();
        let qc = post.spec_claims().spec_claims();
        if pc.contains_key(redemption_id@) {
            pc[redemption_id@].lemma_with_state(ClaimState::Released);
        }
        assert forall|k: u64| #[trigger] post.spec_vaults().contains_key(k) implies post.spec_vaults()[k].spec_pending()
            <= post.spec_vaults()[k].spec_reserve() by {
            assert(pre.spec_vaults().contains_key(k));
        }
        assert forall|t: u64| #[trigger] qc.contains_key(t) && qc[t].spec_state() is Pending implies {
            let c = qc[t];
            let k = c.spec_vault()@;
            &&& post.spec_vaults().contains_key(k)
            &&& post.spec_vaults()[k].spec_tickets().contains_key(t)
            &&& post.spec_vaults()[k].spec_tickets()[t].spec_quoted() == c.spec_amount()
            &&& c.spec_amount()@ > 0 ==> post.spec_vaults()[k].spec_tickets()[t].spec_status().spec_may_cancel()
        } by {
            assert(pc.contains_key(t) && qc[t] == pc[t]);
            let k = pc[t].spec_vault()@;
            if k != k0 {
                assert(post.spec_vaults()[k] == pre.spec_vaults()[k]);
            }
        }
        post.lemma_backed_covered();
    }

    /// A withdrawal keeps the engine backed: the ticket's claim is consumed,
    /// the other claims keep their tickets, and the quote leaves the reserve
    /// and the pending assets alike.
    pub proof fn law_withdraw_keeps_backing(pre: &Self, post: &Self, redemption_id: RedemptionId)
        requires
            pre.wf(),
            post.wf(),
            pre.ticket_home(redemption_id) is Some,
            post.withdraw_applied(pre, redemption_id),
            pre.backed(),
        ensures
            post.backed(),
            post.covered(),
    {
        let k0 = pre.ticket_home(redemption_id)->0;
        pre.lemma_home(redemption_id);
        let pc = pre.spec_claims().spec_claims();
        let qc = post.spec_claims().spec_claims();
        pc[redemption_id@].lemma_with_state(ClaimState::Consumed);
        assert forall|k: u64| #[trigger] post.spec_vaults().contains_key(k) implies post.spec_vaults()[k].spec_pending()
            <= post.spec_vaults()[k].spec_reserve() by {
            assert(pre.spec_vaults().contains_key(k));
        }
        assert forall|t: u64| #[trigger] qc.contains_key(t) && qc[t].spec_state() is Pending implies {
            let c = qc[t];
            let k = c.spec_vault()@;
            &&& post.spec_vaults().contains_key(k)
            &&& post.spec_vaults()[k].spec_tickets().contains_key(t)
            &&& post.spec_vaults()[k].spec_tickets()[t].spec_quoted() == c.spec_amount()
            &&& c.spec_amount()@ > 0 ==> post.spec_vaults()[k].spec_tickets()[t].spec_status().spec_may_cancel()
        } by {
            assert(t != redemption_id@);
            assert(pc.contains_key(t) && qc[t] == pc[t]);
            let k = pc[t].spec_vault()@;
            if k != k0 {
                assert(post.spec_vaults()[k] == pre.spec_vaults()[k]);
            }
        }
        post.lemma_backed_covered();
    }

    /// A sweep that goes through keeps the engine backed: each due claim's
    /// ticket is pending unlock with the claim's amount as its quote, so the
    /// reserve and the pending assets fall by the same total, and the claims
    /// left pending keep their tickets.
    pub proof fn law_sweep_keeps_backing(pre: &Self, post: &Self, account: AccountId, vault: VaultId)
        requires
            pre.wf(),
            post.wf(),
            pre.spec_vaults().contains_key(vault@),
            forall|j: int| 0 <= j < mature_claims(pre.spec_claims().claim_entries(), account, vault, pre.spec_day()).len()
                ==> pre.sweep_refusal(mature_claims(pre.spec_claims().claim_entries(), account, vault, pre.spec_day()), j, account, vault).len() == 0,
            post.sweep_applied(pre, account, vault),
            pre.backed(),
        ensures
            post.backed(),
            post.covered(),
    {
        let day = pre.spec_day();
        let ce = pre.spec_claims().claim_entries();
        let ms = mature_claims(ce, account, vault, day);
        let v = pre.spec_vaults()[vault@];
        let m = v.spec_tickets();
        let pc = pre.spec_claims().spec_claims();
        let qc = post.spec_claims().spec_claims();
        let qe = post.spec_claims().claim_entries();
        pre.lemma_wf_parts();
        post.lemma_wf_parts();
        pre.spec_claims().lemma_entries();
        pre.spec_claims().lemma_wf();
        post.spec_claims().lemma_wf();
        lemma_mature_from(ce, account, vault, day);
        lemma_mature_sorted(ce, account, vault, day);
        lemma_error_codes();
        assert forall|i: int| 0 <= i < ms.len() implies m.contains_key((#[trigger] ms[i]).spec_redemption_id()@)
            && m[ms[i].spec_redemption_id()@].spec_status() is PendingUnlock
            && m[ms[i].spec_redemption_id()@].spec_quoted() == ms[i].spec_amount() by {
            assert(pre.sweep_refusal(ms, i, account, vault).len() == 0);
            let j = choose|j: int| 0 <= j < ce.len() && ce[j].1 == #[trigger] ms[i]
                && ce[j].1.spec_account() == account && ce[j].1.spec_vault() == vault && ce[j].1.spec_is_mature(day);
            assert(pc.contains_key(ce[j].0) && pc[ce[j].0] == ce[j].1);
        }
        lemma_swept_quotes(m, ms);
        assert forall|k: u64| #[trigger] post.spec_vaults().contains_key(k) implies post.spec_vaults()[k].spec_pending()
            <= post.spec_vaults()[k].spec_reserve() by {
            assert(pre.spec_vaults().contains_key(k));
        }
        assert forall|t: u64| #[trigger] qc.contains_key(t) && qc[t].spec_state() is Pending implies {
            let c = qc[t];
            let k = c.spec_vault()@;
            &&& post.spec_vaults().contains_key(k)
            &&& post.spec_vaults()[k].spec_tickets().contains_key(t)
            &&& post.spec_vaults()[k].spec_tickets()[t].spec_quoted() == c.spec_amount()
            &&& c.spec_amount()@ > 0 ==> post.spec_vaults()[k].spec_tickets()[t].spec_status().spec_may_cancel()
        } by {
            let i = post.spec_claims().lemma_claim_at(t);
            let e = ce[i];
            e.1.lemma_with_state(ClaimState::Consumed);
            assert(!(e.1.spec_account() == account && e.1.spec_vault() == vault && e.1.spec_is_mature(day)));
            assert(qe[i] == e);
            assert(pc.contains_key(t) && pc[t] == e.1);
            let k = e.1.spec_vault()@;
            if k != vault@ {
                assert(post.spec_vaults()[k] == pre.spec_vaults()[k]);
            } else {
                assert forall|jj: int| 0 <= jj < ms.len() implies (#[trigger] ms[jj]).spec_redemption_id()@ != t by {
                    let j = choose|j: int| 0 <= j < ce.len() && ce[j].1 == #[trigger] ms[jj]
                        && ce[j].1.spec_account() == account && ce[j].1.spec_vault() == vault && ce[j].1.spec_is_mature(day);
                    if ms[jj].spec_redemption_id()@ == t {
                        assert(ce[j].0 == ce[i].0);
                        if j < i {
                            assert(ce[j].0 < ce[i].0);
                        } else if i < j {
                            assert(ce[i].0 < ce[j].0);
                        }
                    }
                }
                lemma_swept(m, ms, t);
            }
        }
        let nv = post.spec_vaults()[vault@];
        assert forall|t: u64| #[trigger] nv.spec_tickets().contains_key(t) implies v.spec_tickets().contains_key(t) by {
            lemma_swept_dom(m, ms, t);
            if !m.contains_key(t) {
                let jj = choose|jj: int| 0 <= jj < ms.len() && (#[trigger] ms[jj]).spec_redemption_id()@ == t;
                assert(m.contains_key(ms[jj].spec_redemption_id()@));
            }
        }
        post.lemma_unique_from(pre, vault@, None);
        post.lemma_backed_covered();
    }

    /// A cancellation that takes effect on a state passing the reconciliation
    /// checks leaves a state that passes them too: the shares come back to
    /// the account and to the supply together, and no claim grows.
    pub proof fn law_cancel_keeps_checks(pre: &Self, post: &Self, redemption_id: RedemptionId)
        requires
            pre.wf(),
            pre.ticket_home(redemption_id) is Some,
            post.cancel_applied(pre, redemption_id),
            pre.passes_checks(),
        ensures
            post.passes_checks(),
    {
        Self::law_cancel_keeps_coverage(pre, post, redemption_id);
        if pre.spec_config().spec_invariant_checks() {
            let k0 = pre.ticket_home(redemption_id)->0;
            pre.lemma_home(redemption_id);
            pre.lemma_vault_ids(k0);
            let v = pre.spec_vaults()[k0];
            let t = v.spec_tickets()[redemption_id@];
            let vid = t.spec_vault();
            assert(vid@ == k0);
            let ak = t.spec_account()@;
            let a = pre.spec_accounts().spec_accounts()[ak];
            let na = post.spec_accounts().spec_accounts()[ak];
            let n = t.spec_shares()@;
            let es = pre.spec_accounts().spec_entries();
            let p = pre.spec_accounts().position_of(ak);
            pre.lemma_wf_parts();
            pre.spec_accounts().lemma_wf_entry(p);
            crate::idmap::lemma_sum_ge_entry(es, p, |b: Account| balance_of(b.spec_portfolio().shares_view(), k0));
            assert(es[p].1 == a);
            assert(a.spec_portfolio().spec_share(vid) <= held_shares(es, k0));
            assert(held_shares(es, k0) == v.spec_total_shares());
            post.spec_vaults()[k0].lemma_bounded();
            assert(a.spec_portfolio().spec_share(vid) + n <= amount_max());
            assert(na.spec_portfolio().spec_share(vid) == a.spec_portfolio().spec_share(vid) + n);
            assert forall|x: u64| #[trigger] balance_of(na.spec_portfolio().shares_view(), x)
                == balance_of(a.spec_portfolio().shares_view(), x) + if x == k0 { n as int } else { 0 } by {}
            assert forall|x: u64| #[trigger] held_shares(post.spec_accounts().spec_entries(), x)
                == held_shares(es, x) + if x == k0 { n as int } else { 0 } by {
                crate::idmap::lemma_sum_update(es, p, (ak, na), |b: Account| balance_of(b.spec_portfolio().shares_view(), x));
            }
            assert forall|x: u64| #[trigger] held_assets(post.spec_accounts().spec_entries(), x) == held_assets(es, x) by {
                crate::idmap::lemma_sum_update(es, p, (ak, na), |b: Account| balance_of(b.spec_portfolio().assets_view(), x));
            }
            post.spec_vaults()[k0].lemma_bounded();
            assert forall|k: u64| #[trigger] post.spec_vaults().contains_key(k) implies post.spec_vaults()[k].spec_total_shares()
                == held_shares(post.spec_accounts().spec_entries(), k) by {
                assert(pre.spec_vaults().contains_key(k));
                if k != k0 {
                    assert(post.spec_vaults()[k] == pre.spec_vaults()[k]);
                }
            }
            assert forall|k: u64|
                #![trigger held_shares(post.spec_accounts().spec_entries(), k)]
                #![trigger held_assets(post.spec_accounts().spec_entries(), k)]
                #![trigger owed_claims(post.spec_claims().claim_entries(), k)]
                held_shares(post.spec_accounts().spec_entries(), k) <= amount_max()
                    && held_assets(post.spec_accounts().spec_entries(), k) <= amount_max()
                    && owed_claims(post.spec_claims().claim_entries(), k) <= amount_max() by {
                assert(held_shares(es, k) <= amount_max());
                assert(held_assets(es, k) <= amount_max());
                assert(owed_claims(pre.spec_claims().claim_entries(), k) <= amount_max());
            }
        }
    }

    /// An accepted redemption is quoted out of the reserve not yet owed: when
    /// the pending assets were within the reserve, they still are.
    pub proof fn law_request_keeps_pending_covered(
        pre: &Self,
        post: &Self,
        account: AccountId,
        vault: VaultId,
        shares: Amount,
        kind: RedemptionKind,
    )
        requires
            post.request_applied(pre, account, vault, shares, kind),
            shares@ > 0,
        ensures
            pre.spec_vaults()[vault@].spec_pending() <= pre.spec_vaults()[vault@].spec_reserve()
                ==> post.spec_vaults()[vault@].spec_pending() <= post.spec_vaults()[vault@].spec_reserve(),
    {
        let v = pre.spec_vaults()[vault@];
        let total = v.spec_total_shares();
        let liquid = v.spec_liquid();
        let n = shares@;
        assert(n <= total);
        assert(n * liquid / total <= liquid) by (nonlinear_arith)
            requires
                0 < n <= total,
        {
            assert(n * liquid <= total * liquid);
            vstd::arithmetic::div_mod::lemma_div_is_ordered((n * liquid) as int, (total * liquid) as int, total as int);
            vstd::arithmetic::div_mod::lemma_div_by_multiple(liquid as int, total as int);
        }
    }

    /// Cancelling an accepted redemption gives back what the request took:
    /// none of the cancellation's own refusals applies to it and, when the
    /// request was accepted (its reconciliation checks passed), the
    /// cancellation is owed success and returns the new ticket, under the
    /// new identifier, marked cancelled, with the checks passing after it;
    /// the daily
    /// limits and the priority capacity show the active volumes they had
    /// before the request; the account's share balance, the vault's share
    /// supply and its pending assets are as before; and the vault's queue is
    /// back in its earlier order.
    pub proof fn law_cancel_undoes_request(
        pre: CrownEngine,
        mid: CrownEngine,
        post: CrownEngine,
        account: AccountId,
        vault: VaultId,
        shares: Amount,
        kind: RedemptionKind,
    )
        requires
            pre.wf(),
            pre.ids().last_redemption() < u64::MAX,
            mid.wf(),
            mid.request_applied(&pre, account, vault, shares, kind),
            post.wf(),
            post.cancel_applied(&mid, RedemptionId::spec_new((pre.ids().last_redemption() + 1) as u64)),
        ensures
            ({
                let id = RedemptionId::spec_new((pre.ids().last_redemption() + 1) as u64);
                &&& mid.ticket_home(id) == Some(vault@)
                &&& post.ticket_home(id) == Some(vault@)
                &&& post.spec_vaults()[vault@].spec_tickets()[id@].spec_status() == RedemptionStatus::Cancelled
                &&& mid.cancel_late_refusal(id).len() == 0
                &&& mid.passes_checks() ==> mid.cancel_owed(id)
                &&& mid.cancelled_ticket(id).spec_id() == id
                &&& mid.cancelled_ticket(id).spec_status() == RedemptionStatus::Cancelled
                &&& mid.passes_checks() ==> post.passes_checks()
                &&& post.spec_queue().spec_items(vault) == pre.spec_queue().spec_items(vault)
            }),
            forall|a: AccountId, v: VaultId, d: EpochDay| #[trigger] post.spec_limits().spec_bucket(a, v, d).spec_active()
                == pre.spec_limits().spec_bucket(a, v, d).spec_active(),
            kind is Priority ==> forall|v: VaultId, d: EpochDay| #[trigger] post.spec_capacity().spec_bucket(v, d).spec_net()
                == pre.spec_capacity().spec_bucket(v, d).spec_net(),
            post.spec_accounts().spec_accounts()[account@].spec_portfolio().spec_share(vault)
                == pre.spec_accounts().spec_accounts()[account@].spec_portfolio().spec_share(vault),
            post.spec_vaults()[vault@].spec_total_shares() == pre.spec_vaults()[vault@].spec_total_shares(),
            post.spec_vaults()[vault@].spec_pending() == pre.spec_vaults()[vault@].spec_pending(),
    {
        let id = RedemptionId::spec_new((pre.ids().last_redemption() + 1) as u64);
        RedemptionId::lemma_view(id, id, (pre.ids().last_redemption() + 1) as u64);
        Self::lemma_request_home(pre, mid, account, vault, shares, kind);
        mid.spec_vaults()[vault@].lemma_bounded();
        assert forall|j: u64| #[trigger] post.spec_vaults().contains_key(j) && j != vault@
            implies !post.spec_vaults()[j].spec_tickets().contains_key(id@) by {
            assert(post.spec_vaults()[j] == mid.spec_vaults()[j]);
        }
        post.lemma_home_unique(id, vault@);
        mid.spec_vaults()[vault@].spec_tickets()[id@].lemma_with_status(RedemptionStatus::Cancelled);
        let t = mid.spec_vaults()[vault@].spec_tickets()[id@];
        assert(t.spec_vault() == vault);
        assert(t.spec_account() == account);
        let day = pre.spec_day();
        pre.lemma_wf_parts();
        mid.lemma_wf_parts();
        pre.spec_limits().lemma_active_nonnegative(account, vault, day);
        pre.spec_capacity().lemma_net_nonnegative(vault, day);
        assert(t.spec_status() is Queued);
        let pa = pre.spec_accounts().spec_accounts()[account@];
        let ma = mid.spec_accounts().spec_accounts()[account@];
        assert(t.spec_status().spec_may_cancel());
        assert(ma.spec_portfolio().spec_share(vault) + t.spec_shares()@ <= pa.spec_portfolio().spec_share(vault));
        assert(pa.spec_portfolio().spec_share(vault) <= amount_max());
        pre.spec_vaults()[vault@].lemma_bounded();
        assert(mid.spec_vaults()[vault@].spec_total_shares() + t.spec_shares()@ <= amount_max());
        assert(mid.spec_limits().spec_bucket(account, vault, day).spec_active() >= t.spec_shares()@);
        assert(t.spec_kind() is Priority ==> mid.spec_capacity().spec_bucket(vault, day).spec_net() >= t.spec_shares()@);
        assert(mid.cancel_late_refusal(id).len() == 0);
        if mid.passes_checks() {
            Self::law_cancel_keeps_checks(&mid, &post, id);
        }
        let q = pre.spec_queue().spec_items(vault);
        let mq = mid.spec_queue().spec_items(vault);
        assert forall|i: int| 0 <= i < q.len() implies (#[trigger] q[i]).spec_redemption_id() != id by {
            assert(q[i].spec_redemption_id()@ <= pre.ids().last_redemption());
        }
        assert(mq[q.len() as int].spec_redemption_id() == id);
        assert forall|i: int| 0 <= i < mq.len() && (#[trigger] mq[i]).spec_redemption_id() == id
            && (forall|j: int| 0 <= j < i ==> (#[trigger] mq[j]).spec_redemption_id() != id) implies i == q.len() by {
            if i < q.len() {
                assert(mq[i] == q[i]);
            }
        }
        assert(mq.remove(q.len() as int) =~= q);
        assert forall|a: AccountId, v: VaultId, d: EpochDay| #[trigger] post.spec_limits().spec_bucket(a, v, d).spec_active()
            == pre.spec_limits().spec_bucket(a, v, d).spec_active() by {
            if !(a == account && v == vault && d == day) {
                assert(mid.spec_limits().spec_bucket(a, v, d) == pre.spec_limits().spec_bucket(a, v, d));
            }
        }
        if kind is Priority {
            assert forall|v: VaultId, d: EpochDay| #[trigger] post.spec_capacity().spec_bucket(v, d).spec_net()
                == pre.spec_capacity().spec_bucket(v, d).spec_net() by {
                if !(v == vault && d == day) {
                    assert(mid.spec_capacity().spec_bucket(v, d) == pre.spec_capacity().spec_bucket(v, d));
                }
            }
        }
    }

    /// Cancels an open redemption: takes it out of the queue, cancels its
    /// ticket, gives the shares back to the account and the supply, returns
    /// its volume to the day's limit and, for the priority lane, its
    /// priority capacity, releases its pending claim in either lane;
    /// journals the cancellation with the vault's daily priority
    /// capacity as note and runs the reconciliation checks. Fails with
    /// `MissingTicket` when no vault holds the ticket and with
    /// `InvalidStatus` when it is cancelled or withdrawn, changing nothing;
    /// the other failures of `cancel_late_refusal` leave earlier changes in
    /// place.
    pub fn cancel_redemption(&mut self, redemption_id: RedemptionId) -> (r: CrownResult<RedemptionTicket>)
        requires
            old(self).wf(),
            old(self).journal_room(3),
        ensures
            final(self).wf(),
            ({
                let home = old(self).ticket_home(redemption_id);
                let late = old(self).cancel_late_refusal(redemption_id);
                let v = old(self).spec_vaults()[home->0];
                let t = v.spec_tickets()[redemption_id@];
                &&& home is None ==> (r matches Err(e) && e is MissingTicket && e.spec_detail() == "rdm-"@ + decimal(
                    redemption_id@ as nat,
                ) && *final(self) == *old(self))
                &&& home is Some && late.len() != 0 ==> (r matches Err(e) && e.spec_code() == late
                    && e.spec_detail() == old(self).cancel_late_detail(redemption_id))
                &&& home is Some && !t.spec_status().spec_may_cancel() ==> *final(self) == *old(self)
                &&& home is Some && late.len() == 0 && old(self).shares_balanced() ==> final(self).shares_balanced()
                &&& home is Some && late.len() == 0 && old(self).backed() ==> final(self).backed() && final(self).covered()
                &&& old(self).cancel_owed(redemption_id) ==> r == Ok::<RedemptionTicket, CrownError>(
                    old(self).cancelled_ticket(redemption_id))
                &&& home is Some && late.len() == 0 ==> (final(self).cancel_applied(old(self), redemption_id)
                    && final(self).ids_moved(old(self), 0, 0, 0, 0, 0, 1 + final(self).check_event_count())
                    && final(self).spec_events() == old(self).spec_events().push(EventView {
                        account: Some(t.spec_account()),
                        vault: Some(t.spec_vault()),
                        redemption: Some(redemption_id),
                        amount: Some(t.spec_shares()),
                        ..note_event((old(self).last_journal() + 1) as u64, old(self).spec_day(), EventKind::RedemptionCancelled,
                            decimal(v.spec_policy().spec_priority().spec_daily_capacity()@))
                    }) + check_events(old(self).spec_day(), (old(self).last_journal() + 1) as u64, final(self).check_event_count())
                    && (r is Ok <==> final(self).passes_checks())
                    && (r matches Ok(tk) ==> tk == t.with_status(RedemptionStatus::Cancelled))
                    && (r matches Err(e) ==> (e is Arithmetic && !final(self).totals_fit()) || (e is Invariant
                        && final(self).totals_fit()))
                    && (r matches Err(e) ==> (e is Invariant ==> e.spec_detail() == final(self).check_detail())
                        && (e is Arithmetic ==> e.spec_detail() == "amount addition overflow"@)))
            }),
    {
        proof {
            lemma_error_codes();
            lemma_counter_names();
            reveal_strlit("invalid_status");
            reveal_strlit("arithmetic");
            reveal_strlit("invariant");
            self.lemma_home(redemption_id);
            self.accounts.lemma_wf();
        }
        let day = self.clock.day();
        let t = *self.find_ticket(redemption_id)?;
        let ghost k = self.ticket_home(redemption_id)->0;
        let vault_id = t.vault();
        let account_id = t.account();
        let shares = t.shares();
        let kind = t.kind();
        let requested_day = t.requested_day();
        proof {
            self.lemma_vault_ids(k);
            VaultId::lemma_view(vault_id, VaultId::spec_new(k), k);
            t.lemma_with_status(RedemptionStatus::Cancelled);
            self.limits.lemma_active_nonnegative(account_id, vault_id, requested_day);
            self.capacity.lemma_net_nonnegative(vault_id, requested_day);
        }
        if !t.status().may_cancel() {
            return Err(t.status_error("cannot be cancelled"));
        }
        let policy = self.vault(vault_id)?.policy();
        let ghost s0 = *self;
        let removed_from_queue = self.queue.contains(vault_id, redemption_id);
        if removed_from_queue {
            let _ = self.queue.cancel(vault_id, redemption_id)?;
            proof {
                assert forall|v: VaultId| #[trigger] self.spec_queue().spec_sequence(v) <= self.ids().last_redemption() by {
                    if v != vault_id {
                        assert(self.spec_queue().spec_items(v) == s0.spec_queue().spec_items(v));
                    }
                    assert(s0.spec_queue().spec_sequence(v) <= s0.ids().last_redemption());
                }
            }
        }
        proof { self.lemma_wf_from(&s0); self.lemma_vault_ids(k); }
        let ghost s1 = *self;
        let ticket = self.vault_mut(vault_id)?.cancel_ticket(redemption_id)?;
        proof { self.lemma_vault_ids(k); }
        let ghost s2 = *self;
        let credited = match self.accounts.get_mut(account_id) {
            Ok(a) => a.portfolio_mut().credit_shares(vault_id, shares),
            Err(e) => Err(e),
        };
        proof {
            assert(self.spec_accounts().spec_accounts().dom() =~= s2.spec_accounts().spec_accounts().dom());
            self.lemma_wf_from(&s2);
            self.lemma_vault_ids(k);
        }
        credited?;
        let ghost s3 = *self;
        self.vault_mut(vault_id)?.restore_shares_from_redemption(shares)?;
        let ghost s4 = *self;
        let released = self.limits.release(account_id, vault_id, requested_day, shares);
        proof { self.lemma_wf_from(&s4); }
        released?;
        let ghost s5 = *self;
        match kind {
            RedemptionKind::Priority => {
                let back = self.capacity.release(vault_id, requested_day, shares);
                proof { self.lemma_wf_from(&s5); }
                back?;
            },
            RedemptionKind::Standard => {},
        }
        let ghost s6 = *self;
        if self.claims.pending_for_ticket(redemption_id).raw() > 0 {
            let freed = self.claims.release_claim(redemption_id);
            proof {
                assert forall|x: u64| #[trigger] self.spec_claims().spec_claims().contains_key(x) implies x <= self.ids().last_redemption() by {
                    assert(s6.spec_claims().spec_claims().contains_key(x));
                }
                self.lemma_wf_from(&s6);
            }
            freed?;
        }
        let note = policy.priority().daily_capacity().to_text();
        let event = self.ledger.event(day, EventKind::RedemptionCancelled).account(account_id).vault(vault_id).redemption(
            redemption_id,
        ).amount(shares).note(note.as_str()).build();
        proof {
            let j = self.last_journal();
            JournalId::lemma_view(event@.id, JournalId::spec_new(j), j);
        }
        self.ledger.record(event);
        let ghost mid = *self;
        proof {
            self.lemma_wf_from(&mid);
            let pre = old(self);
            let v = pre.spec_vaults()[k];
            let nv = self.spec_vaults()[k];
            assert(self.changes_only(pre, false, true, true, true, true, true, t.spec_kind() is Priority));
            assert(self.spec_vaults() == pre.spec_vaults().insert(k, nv));
            assert(nv.spec_config() == v.spec_config());
            assert(nv.spec_reserve() == v.spec_reserve());
            assert(nv.spec_total_shares() == v.spec_total_shares() + t.spec_shares()@);
            assert(nv.spec_pending() == v.spec_pending() - t.spec_quoted()@);
            assert(nv.spec_tickets() == v.spec_tickets().insert(redemption_id@, t.with_status(RedemptionStatus::Cancelled)));
            let na = self.spec_accounts().spec_accounts()[account_id@];
            assert(account_replaced(self.spec_accounts(), pre.spec_accounts(), account_id@, na));
            assert(self.spec_limits().same_except(&pre.spec_limits(), account_id, vault_id, requested_day));
            let q = pre.spec_queue().spec_items(vault_id);
            if removed_from_queue {
                assert(self.spec_queue().same_except(&pre.spec_queue(), vault_id));
                assert(exists|i: int| 0 <= i < q.len() && q[i].spec_redemption_id() == redemption_id
                    && (forall|j: int| 0 <= j < i ==> (#[trigger] q[j]).spec_redemption_id() != redemption_id)
                    && self.spec_queue().spec_items(vault_id) == q.remove(i));
            } else {
                assert(self.spec_queue() == pre.spec_queue());
            }
            let a = pre.spec_accounts().spec_accounts()[account_id@];
            assert(shares_set(a, na, a.spec_portfolio().shares_view().insert(vault_id@,
                Amount::spec_new((a.spec_portfolio().spec_share(vault_id) + t.spec_shares()@) as u128))));
            if pre.shares_balanced() {
                assert forall|x: u64| #[trigger] balance_of(na.spec_portfolio().shares_view(), x)
                    == balance_of(a.spec_portfolio().shares_view(), x) + if x == k { t.spec_shares()@ as int } else { 0 } by {}
                self.lemma_balanced_move(pre, account_id@, k, t.spec_shares()@ as int);
            }
        }
        let r = self.check_invariants();
        proof {
            self.lemma_checks_same(&mid);
            self.lemma_cancel_applied_ledger(&mid, old(self), redemption_id);
            assert(self.spec_events() =~= old(self).spec_events().push(event@) + check_events(old(self).spec_day(), (old(self).last_journal() + 1) as u64, self.check_event_count()));
            if old(self).passes_checks() {
                Self::law_cancel_keeps_checks(old(self), &*self, redemption_id);
            }
            if old(self).backed() {
                Self::law_cancel_keeps_backing(old(self), &*self, redemption_id);
            }
        }
        r?;
        Ok(ticket)
    }

    /// The queue can be served: the vault exists unless nothing is served,
    /// and no served item fails to be scheduled.
    pub open spec fn process_ok(&self, vault: VaultId, max_items: nat) -> bool {
        let s = service_order(self.spec_queue().spec_items(vault), max_items);
        let m = self.spec_vaults()[vault@].spec_tickets();
        let c = self.spec_claims().spec_claims();
        &&& self.spec_vaults().contains_key(vault@) || s.len() == 0
        &&& forall|i: int| 0 <= i < s.len() ==> !serve_fails(m, c, s, i)
    }

    /// `self` is `pre` after its queue for `vault` was served up to
    /// `max_items`: the served items left the queue, their tickets are
    /// pending unlock, and those of the standard lane got their claims.
    pub open spec fn process_applied(&self, pre: &Self, vault: VaultId, max_items: nat) -> bool {
        let s = service_order(pre.spec_queue().spec_items(vault), max_items);
        let present = pre.spec_vaults().contains_key(vault@);
        let v = pre.spec_vaults()[vault@];
        let m = v.spec_tickets();
        let c = pre.spec_claims().spec_claims();
        let nv = self.spec_vaults()[vault@];
        &&& self.changes_only(pre, false, false, present, true, true, false, false)
        &&& self.spec_queue().same_except(&pre.spec_queue(), vault)
        &&& self.spec_queue().spec_sequence(vault) == pre.spec_queue().spec_sequence(vault)
        &&& self.spec_queue().spec_items(vault) == drop_served(pre.spec_queue().spec_items(vault), max_items)
        &&& (present ==> self.spec_vaults() == pre.spec_vaults().insert(vault@, nv)
            && nv.spec_config() == v.spec_config() && nv.spec_reserve() == v.spec_reserve()
            && nv.spec_total_shares() == v.spec_total_shares() && nv.spec_pending() == v.spec_pending()
            && nv.spec_tickets() == scheduled(m, s))
        &&& self.spec_claims().spec_claims() == standard_claims(c, m, s)
    }

    /// Serves up to `max_items` redemptions of the vault in service order:
    /// each ticket moves to pending unlock and, in the standard lane, gets a
    /// claim; each is journaled, then the run with the number served, and
    /// the reconciliation checks run. Returns the scheduled tickets in
    /// service order. The served items leave the queue even when a later step
    /// fails: `MissingVault` for an unknown vault with items to serve, or the
    /// code of `serve_code` for the first item that `serve_fails`.
    pub fn process_vault_queue(&mut self, vault: VaultId, max_items: usize) -> (r: CrownResult<Vec<RedemptionTicket>>)
        requires
            old(self).wf(),
            old(self).journal_room(
                (if max_items < old(self).spec_queue().spec_items(vault).len() {
                    max_items as nat
                } else {
                    old(self).spec_queue().spec_items(vault).len()
                }) + 3,
            ),
        ensures
            r is Ok && old(self).shares_balanced() ==> final(self).shares_balanced(),
            final(self).wf(),
            ({
                let s = service_order(old(self).spec_queue().spec_items(vault), max_items as nat);
                let present = old(self).spec_vaults().contains_key(vault@);
                let v = old(self).spec_vaults()[vault@];
                let m = v.spec_tickets();
                let c = old(self).spec_claims().spec_claims();
                let nv = final(self).spec_vaults()[vault@];
                let day = old(self).spec_day();
                let ok = old(self).process_ok(vault, max_items as nat);
                &&& !present && s.len() > 0 ==> (r matches Err(e) && e is MissingVault && e.spec_detail() == "vault-"@
                    + decimal(vault@ as nat))
                &&& present ==> forall|i: int| 0 <= i < s.len() && serve_fails(m, c, s, i) && (forall|j: int| 0 <= j < i ==> !serve_fails(m, c, s, j))
                    ==> (r matches Err(e) && e.spec_code() == serve_code(m, s, i) && e.spec_detail() == serve_detail(m, s, i))
                &&& ok && old(self).backed() ==> final(self).backed() && final(self).covered()
                &&& ok && old(self).consistent() && old(self).passes_checks() ==> r is Ok
                &&& ok ==> (final(self).process_applied(old(self), vault, max_items as nat)
                    && (old(self).shares_balanced() ==> final(self).shares_balanced())
                    && final(self).ids_moved(old(self), 0, 0, 0, 0, 0, s.len() + 1 + final(self).check_event_count())
                    && final(self).spec_events() == old(self).spec_events() + scheduled_events(m, s, old(self).last_journal(), day)
                        + seq![EventView {
                            vault: Some(vault),
                            amount: Some(Amount::spec_new(s.len() as u128)),
                            ..note_event((old(self).last_journal() + s.len() + 1) as u64, day, EventKind::WindowProcessed, Seq::empty())
                        }] + check_events(day, (old(self).last_journal() + s.len() + 1) as u64, final(self).check_event_count())
                    && (r is Ok <==> final(self).passes_checks())
                    && (r matches Ok(out) ==> out@ == s.map_values(|it: QueueItem| m[it.spec_redemption_id()@].with_status(RedemptionStatus::PendingUnlock)))
                    && (r matches Err(e) ==> (e is Arithmetic && !final(self).totals_fit()) || (e is Invariant
                        && final(self).totals_fit()))
                    && (r matches Err(e) ==> (e is Invariant ==> e.spec_detail() == final(self).check_detail())
                        && (e is Arithmetic ==> e.spec_detail() == "amount addition overflow"@)))
            }),
    {
        proof {
            lemma_counter_names();
            lemma_error_codes();
            reveal_strlit("missing_ticket");
            reveal_strlit("invalid_status");
            reveal_strlit("invariant");
        }
        let day = self.clock.day();
        let ghost s0 = *self;
        let items = self.queue.pop_batch(vault, max_items);
        proof {
            assert forall|x: VaultId| #[trigger] self.spec_queue().spec_sequence(x) <= self.ids().last_redemption() by {
                if x != vault {
                    assert(self.spec_queue().spec_items(x) == s0.spec_queue().spec_items(x));
                }
                assert(s0.spec_queue().spec_sequence(x) <= s0.ids().last_redemption());
            }
            assert forall|x: VaultId, i: int| 0 <= i < self.spec_queue().spec_items(x).len() implies
                (#[trigger] self.spec_queue().spec_items(x)[i]).spec_redemption_id()@ <= self.ids().last_redemption() by {
                if x != vault {
                    assert(self.spec_queue().spec_items(x) == s0.spec_queue().spec_items(x));
                    assert(s0.spec_queue().spec_items(x)[i].spec_redemption_id()@ <= s0.ids().last_redemption());
                } else {
                    crate::queue::lemma_drop_member(s0.spec_queue().spec_items(vault), max_items as nat, i);
                    let j = choose|j: int| 0 <= j < s0.spec_queue().spec_items(vault).len()
                        && s0.spec_queue().spec_items(vault)[j] == self.spec_queue().spec_items(vault)[i];
                    assert(s0.spec_queue().spec_items(vault)[j].spec_redemption_id()@ <= s0.ids().last_redemption());
                }
            }
            self.lemma_wf_from(&s0);
            lemma_service_len(s0.spec_queue().spec_items(vault), max_items as nat);
        }
        let ghost s1 = *self;
        let ghost sv = items@;
        let ghost present = s1.spec_vaults().contains_key(vault@);
        let ghost v = s1.spec_vaults()[vault@];
        let ghost m = v.spec_tickets();
        let ghost c = s1.spec_claims().spec_claims();
        proof { if present { self.lemma_vault_ids(vault@); } }
        let mut processed: Vec<RedemptionTicket> = Vec::new();
        let mut i: usize = 0;
        while i < items.len()
            invariant
                self.wf(),
                items@ == sv,
                sv == service_order(old(self).spec_queue().spec_items(vault), max_items as nat),
                s1.spec_vaults() == old(self).spec_vaults(),
                s1.spec_claims() == old(self).spec_claims(),
                s1.spec_ledger() == old(self).spec_ledger(),
                s1.spec_day() == old(self).spec_day(),
                sv.len() <= max_items,
                s1.last_journal() + sv.len() + 3 <= u64::MAX,
                i <= sv.len(),
                day == s1.spec_day(),
                present == s1.spec_vaults().contains_key(vault@),
                v == s1.spec_vaults()[vault@],
                present ==> v.wf(),
                m == v.spec_tickets(),
                c == s1.spec_claims().spec_claims(),
                self.changes_only(&s1, false, false, true, false, true, false, false),
                present ==> self.spec_vaults() == s1.spec_vaults().insert(vault@, self.spec_vaults()[vault@])
                    && self.spec_vaults()[vault@].spec_config() == v.spec_config()
                    && self.spec_vaults()[vault@].spec_reserve() == v.spec_reserve()
                    && self.spec_vaults()[vault@].spec_total_shares() == v.spec_total_shares()
                    && self.spec_vaults()[vault@].spec_pending() == v.spec_pending()
                    && self.spec_vaults()[vault@].spec_tickets() == scheduled(m, sv.take(i as int)),
                !present ==> i == 0 && self.spec_vaults() == s1.spec_vaults() && self.vault_entries() == s1.vault_entries(),
                self.spec_claims().spec_claims() == standard_claims(c, m, sv.take(i as int)),
                forall|j: int| 0 <= j < i ==> !serve_fails(m, c, sv, j),
                self.ids_moved(&s1, 0, 0, 0, 0, 0, i as nat),
                self.spec_events() == s1.spec_events() + scheduled_events(m, sv.take(i as int), s1.last_journal(), day),
                processed@ == sv.take(i as int).map_values(|it: QueueItem| m[it.spec_redemption_id()@].with_status(RedemptionStatus::PendingUnlock)),
            decreases sv.len() - i,
        {
            let item = items[i];
            let id = item.redemption_id();
            let ghost si = *self;
            proof {
                lemma_counter_names();
                lemma_error_codes();
                reveal_strlit("missing_ticket");
                reveal_strlit("invalid_status");
                reveal_strlit("invariant");
                lemma_scheduled(m, sv.take(i as int), id@);
                lemma_standard_claims(c, m, sv.take(i as int), id@);
                if served_before(sv, i as int) {
                    let j = choose|j: int| 0 <= j < i && (#[trigger] sv[j]).spec_redemption_id() == sv[i as int].spec_redemption_id();
                    assert(sv.take(i as int)[j] == sv[j]);
                    assert(!serve_fails(m, c, sv, j));
                    assert(m.contains_key(id@));
                } else {
                    assert forall|j: int| 0 <= j < sv.take(i as int).len() implies (#[trigger] sv.take(i as int)[j]).spec_redemption_id()@ != id@ by {
                        assert(sv.take(i as int)[j] == sv[j]);
                        if sv[j].spec_redemption_id()@ == id@ {
                            RedemptionId::lemma_view(sv[j].spec_redemption_id(), id, id@);
                        }
                    }
                }
                if present {
                    self.lemma_vault_ids(vault@);
                    self.spec_vaults()[vault@].lemma_wf();
                    v.lemma_wf();
                    m[id@].lemma_with_status(RedemptionStatus::PendingUnlock);
                }
            }
            let outcome = self.vault_mut(vault)?.schedule_ticket(id);
            let ticket = match outcome {
                Ok(t) => t,
                Err(e) => {
                    proof {
                        assert(serve_fails(m, c, sv, i as int));
                        assert(e.spec_code() == serve_code(m, sv, i as int));
                    }
                    return Err(e);
                },
            };
            proof {
                self.lemma_vault_ids(vault@);
                assert(!served_before(sv, i as int));
                assert(sv.take(i as int + 1).drop_last() =~= sv.take(i as int));
                assert(self.spec_vaults()[vault@].spec_tickets() =~= scheduled(m, sv.take(i as int + 1)));
            }
            let ghost sj = *self;
            match item.lane() {
                Lane::Standard => {
                    let claim = PriorityClaim::from_draft(
                        PriorityClaimDraft {
                            redemption_id: ticket.id(),
                            account: ticket.account(),
                            vault: ticket.vault(),
                            asset: ticket.asset(),
                            amount: ticket.quoted_assets(),
                            unlock_day: ticket.unlock_day(),
                            window: ticket.window(),
                            lane: item.lane(),
                        },
                    );
                    proof {
                        RedemptionId::lemma_view(ticket.spec_id(), id, id@);
                        assert(self.spec_vaults()[vault@].spec_tickets().contains_key(id@));
                        assert(id@ <= self.ids().last_redemption());
                    }
                    match self.claims.insert(claim) {
                        Ok(()) => {},
                        Err(e) => {
                            proof {
                                assert(serve_fails(m, c, sv, i as int));
                                assert(e.spec_code() == serve_code(m, sv, i as int));
                            }
                            return Err(e);
                        },
                    }
                    proof {
                        assert forall|x: u64| #[trigger] self.spec_claims().spec_claims().contains_key(x) implies x <= self.ids().last_redemption() by {
                            if x != id@ {
                                assert(sj.spec_claims().spec_claims().contains_key(x));
                            }
                        }
                        self.lemma_wf_from(&sj);
                    }
                },
                Lane::Priority => {},
            }
            proof {
                assert(self.spec_claims().spec_claims() =~= standard_claims(c, m, sv.take(i as int + 1)));
            }
            let event = self.ledger.event(day, EventKind::RedemptionScheduled).account(ticket.account()).vault(ticket.vault()).asset(
                ticket.asset(),
            ).redemption(ticket.id()).amount(ticket.shares()).note(item.lane().label()).build();
            proof {
                let j = self.last_journal();
                JournalId::lemma_view(event@.id, JournalId::spec_new(j), j);
            }
            self.ledger.record(event);
            processed.push(ticket);
            proof {
                self.lemma_wf_from(&sj);
                assert(self.spec_events() =~= s1.spec_events() + scheduled_events(m, sv.take(i as int + 1), s1.last_journal(), day));
                assert(processed@ =~= sv.take(i as int + 1).map_values(|it: QueueItem| m[it.spec_redemption_id()@].with_status(RedemptionStatus::PendingUnlock)));
            }
            i = i + 1;
        }
        proof { assert(sv.take(sv.len() as int) =~= sv); }
        let event = self.ledger.event(day, EventKind::WindowProcessed).vault(vault).amount(Amount::new(processed.len() as u128)).build();
        proof {
            let j = self.last_journal();
            JournalId::lemma_view(event@.id, JournalId::spec_new(j), j);
        }
        self.ledger.record(event);
        let ghost mid = *self;
        proof {
            self.lemma_wf_from(&mid);
            if old(self).shares_balanced() {
                assert forall|k: u64| #[trigger] self.supply(k) == old(self).supply(k) by {
                    if present && k == vault@ {
                        assert(self.spec_vaults().contains_key(k));
                    }
                }
                self.lemma_balanced_keep(old(self));
            }
        }
        let r = self.check_invariants();
        proof {
            self.lemma_checks_same(&mid);
            assert(self.spec_events() =~= old(self).spec_events() + scheduled_events(m, sv, old(self).last_journal(), day)
                + seq![event@] + check_events(day, (old(self).last_journal() + sv.len() + 1) as u64, self.check_event_count()));
            if old(self).backed() {
                assert(self.process_applied(old(self), vault, max_items as nat));
                Self::law_process_keeps_backing(old(self), &*self, vault, max_items as nat);
                if old(self).shares_balanced() && old(self).passes_checks() {
                    self.lemma_consistent_passes(old(self));
                }
            }
        }
        r?;
        Ok(processed)
    }

    /// The error code a withdrawal of the ticket is refused with before
    /// anything changes; empty when it passes.
    /// The detail text of the error a withdrawal is refused with before
    /// anything changes, for the refusals of `withdraw_refusal`.
    pub open spec fn withdraw_refusal_detail(&self, redemption_id: RedemptionId) -> Seq<char> {
        let home = self.ticket_home(redemption_id);
        let t = self.spec_vaults()[home->0].spec_tickets()[redemption_id@];
        let claims = self.spec_claims().spec_claims();
        let text = "rdm-"@ + decimal(redemption_id@ as nat);
        if home is None {
            text
        } else if !(t.spec_status() is PendingUnlock) {
            "ticket "@ + text + " is "@ + t.spec_status().spec_label()
        } else if !claims.contains_key(redemption_id@) {
            text
        } else if !claims[redemption_id@].spec_is_mature(self.spec_day()) {
            "claim "@ + text + " unlocks at day "@ + decimal(claims[redemption_id@].spec_unlock_day()@ as nat)
        } else if self.spec_day()@ < t.spec_unlock_day()@ {
            "ticket "@ + text + " unlocks at day "@ + decimal(t.spec_unlock_day()@ as nat)
        } else if self.spec_vaults()[home->0].spec_reserve() < t.spec_quoted()@ {
            shortfall_detail(home->0, self.spec_vaults()[home->0].spec_reserve(), t.spec_quoted()@)
        } else {
            Seq::empty()
        }
    }

    pub open spec fn withdraw_refusal(&self, redemption_id: RedemptionId) -> Seq<char> {
        let home = self.ticket_home(redemption_id);
        let t = self.spec_vaults()[home->0].spec_tickets()[redemption_id@];
        let claims = self.spec_claims().spec_claims();
        if home is None {
            "missing_ticket"@
        } else if !(t.spec_status() is PendingUnlock) {
            "invalid_status"@
        } else if !claims.contains_key(redemption_id@) {
            "missing_claim"@
        } else if !claims[redemption_id@].spec_is_mature(self.spec_day()) {
            "window_not_ready"@
        } else if self.spec_day()@ < t.spec_unlock_day()@ {
            "window_not_ready"@
        } else if self.spec_vaults()[home->0].spec_reserve() < t.spec_quoted()@ {
            "insufficient_assets"@
        } else {
            Seq::empty()
        }
    }

    /// The error code a withdrawal fails with once its claim was consumed;
    /// empty when it goes through.
    pub open spec fn withdraw_late_refusal(&self, redemption_id: RedemptionId) -> Seq<char> {
        let k = self.ticket_home(redemption_id)->0;
        let v = self.spec_vaults()[k];
        let t = v.spec_tickets()[redemption_id@];
        let c = self.spec_claims().spec_claims()[redemption_id@];
        let a = self.spec_accounts().spec_accounts()[t.spec_account()@];
        if a.spec_portfolio().spec_asset(t.spec_asset()) + c.spec_amount()@ > amount_max() {
            "arithmetic"@
        } else if self.spec_limits().spec_bucket(t.spec_account(), t.spec_vault(), t.spec_requested_day()).spec_completed()
            + t.spec_shares()@ > amount_max() {
            "arithmetic"@
        } else {
            Seq::empty()
        }
    }

    /// The text of the error of `withdraw_late_refusal`.
    pub open spec fn withdraw_late_detail(&self, redemption_id: RedemptionId) -> Seq<char> {
        "amount addition overflow"@
    }

    /// `self` is `pre` after the withdrawal of the ticket took effect: its
    /// claim consumed, the ticket withdrawn, its quote paid out of the
    /// reserve and the pending assets, the claim's amount credited to the
    /// account and its volume recorded as completed.
    pub open spec fn withdraw_applied(&self, pre: &Self, redemption_id: RedemptionId) -> bool {
        let k = pre.ticket_home(redemption_id)->0;
        let v = pre.spec_vaults()[k];
        let nv = self.spec_vaults()[k];
        let t = v.spec_tickets()[redemption_id@];
        let c = pre.spec_claims().spec_claims()[redemption_id@];
        let acct = t.spec_account();
        let a = pre.spec_accounts().spec_accounts()[acct@];
        let na = self.spec_accounts().spec_accounts()[acct@];
        let b = pre.spec_limits().spec_bucket(acct, t.spec_vault(), t.spec_requested_day());
        let nb = self.spec_limits().spec_bucket(acct, t.spec_vault(), t.spec_requested_day());
        &&& self.changes_only(pre, false, true, true, false, true, true, false)
        &&& self.spec_claims().spec_claims() == pre.spec_claims().spec_claims().insert(redemption_id@, c.with_state(ClaimState::Consumed))
        &&& self.spec_vaults() == pre.spec_vaults().insert(k, nv)
        &&& nv.spec_config() == v.spec_config()
        &&& nv.spec_reserve() == v.spec_reserve() - t.spec_quoted()@
        &&& nv.spec_pending() == v.spec_pending() - t.spec_quoted()@
        &&& nv.spec_total_shares() == v.spec_total_shares()
        &&& nv.spec_tickets() == v.spec_tickets().insert(redemption_id@, t.with_status(RedemptionStatus::Withdrawn))
        &&& account_replaced(self.spec_accounts(), pre.spec_accounts(), acct@, na)
        &&& assets_set(a, na, a.spec_portfolio().assets_view().insert(t.spec_asset()@,
            Amount::spec_new((a.spec_portfolio().spec_asset(t.spec_asset()) + c.spec_amount()@) as u128)))
        &&& self.spec_limits().same_except(&pre.spec_limits(), acct, t.spec_vault(), t.spec_requested_day())
        &&& nb.spec_completed() == b.spec_completed() + t.spec_shares()@
        &&& nb.spec_requested() == b.spec_requested()
        &&& nb.spec_released() == b.spec_released()
    }

    proof fn lemma_withdraw_applied_ledger(&self, mid: &Self, pre: &Self, redemption_id: RedemptionId)
        requires
            mid.withdraw_applied(pre, redemption_id),
            self.same_except_ledger(mid),
        ensures
            self.withdraw_applied(pre, redemption_id),
    {
    }

    /// Withdraws a scheduled ticket whose unlock day has come: consumes its
    /// claim, marks it withdrawn, pays its quote out of the vault's reserve,
    /// credits the claim's amount to the account, records the completed
    /// volume, journals it and runs the reconciliation checks. The refusals
    /// of `withdraw_refusal`, among them a reserve too short to pay it, leave
    /// everything unchanged; the overflows of `withdraw_late_refusal` leave
    /// the earlier changes in place. In a backed engine the claim's amount is
    /// the ticket's quote, and the engine stays backed.
    pub fn withdraw_ticket(&mut self, redemption_id: RedemptionId) -> (r: CrownResult<WithdrawalReceipt>)
        requires
            old(self).wf(),
            old(self).journal_room(3),
        ensures
            r is Ok && old(self).shares_balanced() ==> final(self).shares_balanced(),
            final(self).wf(),
            ({
                let refusal = old(self).withdraw_refusal(redemption_id);
                let late = old(self).withdraw_late_refusal(redemption_id);
                let k = old(self).ticket_home(redemption_id)->0;
                let v = old(self).spec_vaults()[k];
                let t = v.spec_tickets()[redemption_id@];
                let c = old(self).spec_claims().spec_claims()[redemption_id@];
                &&& r is Ok ==> t.spec_status() is PendingUnlock && c.spec_is_mature(old(self).spec_day())
                    && t.spec_unlock_day()@ <= old(self).spec_day()@
                &&& refusal.len() != 0 ==> (r matches Err(e) && e.spec_code() == refusal && e.spec_detail()
                    == old(self).withdraw_refusal_detail(redemption_id) && *final(self) == *old(self))
                &&& refusal.len() == 0 && late.len() != 0 ==> (r matches Err(e) && e.spec_code() == late
                    && e.spec_detail() == old(self).withdraw_late_detail(redemption_id))
                &&& refusal.len() == 0 && old(self).backed() ==> c.spec_amount() == t.spec_quoted()
                &&& refusal.len() == 0 && late.len() == 0 && old(self).backed() ==> final(self).backed() && final(self).covered()
                &&& refusal.len() == 0 && late.len() == 0 && old(self).consistent() ==> (r is Ok <==> (
                    !final(self).spec_config().spec_invariant_checks() || final(self).totals_fit()))
                &&& refusal.len() == 0 && late.len() == 0 ==> (final(self).withdraw_applied(old(self), redemption_id)
                    && (old(self).shares_balanced() ==> final(self).shares_balanced())
                    && final(self).ids_moved(old(self), 0, 0, 0, 0, 0, 1 + final(self).check_event_count())
                    && final(self).spec_events() == old(self).spec_events().push(EventView {
                        account: Some(t.spec_account()),
                        vault: Some(t.spec_vault()),
                        asset: Some(t.spec_asset()),
                        redemption: Some(t.spec_id()),
                        amount: Some(c.spec_amount()),
                        ..note_event((old(self).last_journal() + 1) as u64, old(self).spec_day(), EventKind::WithdrawalCompleted, Seq::empty())
                    }) + check_events(old(self).spec_day(), (old(self).last_journal() + 1) as u64, final(self).check_event_count())
                    && (r is Ok <==> final(self).passes_checks())
                    && (r matches Ok(receipt) ==> receipt.account == t.spec_account() && receipt.vault == t.spec_vault()
                        && receipt.asset == t.spec_asset() && receipt.amount == c.spec_amount()
                        && receipt.redemptions@ == seq![redemption_id])
                    && (r matches Err(e) ==> (e is Arithmetic && !final(self).totals_fit()) || (e is Invariant
                        && final(self).totals_fit()))
                    && (r matches Err(e) ==> (e is Invariant ==> e.spec_detail() == final(self).check_detail())
                        && (e is Arithmetic ==> e.spec_detail() == "amount addition overflow"@)))
            }),
    {
        proof {
            lemma_error_codes();
            lemma_counter_names();
            reveal_strlit("invalid_status");
            reveal_strlit("window_not_ready");
            reveal_strlit("insufficient_assets");
            reveal_strlit("arithmetic");
            self.lemma_home(redemption_id);
            self.accounts.lemma_wf();
            self.claims.lemma_wf();
            if self.withdraw_refusal(redemption_id).len() == 0 && self.backed() {
                let k = self.ticket_home(redemption_id)->0;
                let c = self.spec_claims().spec_claims()[redemption_id@];
                assert(self.spec_vaults()[c.spec_vault()@].spec_tickets().contains_key(redemption_id@));
                assert(self.spec_vaults()[k].spec_tickets().contains_key(redemption_id@));
            }
        }
        let day = self.clock.day();
        let ticket = *self.find_ticket(redemption_id)?;
        let ghost k = self.ticket_home(redemption_id)->0;
        proof {
            self.lemma_vault_ids(k);
            self.spec_vaults()[k].lemma_wf();
            VaultId::lemma_view(ticket.spec_vault(), VaultId::spec_new(k), k);
            ticket.lemma_with_status(RedemptionStatus::Withdrawn);
        }
        match ticket.status() {
            RedemptionStatus::PendingUnlock => {},
            _ => {
                let msg = String::from_str("ticket ").concat(redemption_id.label().as_str()).concat(" is ").concat(
                    ticket.status().label(),
                );
                return Err(CrownError::InvalidStatus(msg));
            },
        }
        let due = self.claims.get(redemption_id)?;
        if !due.is_mature(day) {
            let msg = String::from_str("claim ").concat(redemption_id.label().as_str()).concat(" unlocks at day ").concat(
                crate::text::decimal_string(due.unlock_day().raw() as u128).as_str(),
            );
            return Err(CrownError::WindowNotReady(msg));
        }
        if day.raw() < ticket.unlock_day().raw() {
            let msg = String::from_str("ticket ").concat(redemption_id.label().as_str()).concat(" unlocks at day ").concat(
                crate::text::decimal_string(ticket.unlock_day().raw() as u128).as_str(),
            );
            return Err(CrownError::WindowNotReady(msg));
        }
        let reserve = self.vault(ticket.vault())?.reserve_assets();
        if reserve.raw() < ticket.quoted_assets().raw() {
            let msg = String::from_str("vault ").concat(ticket.vault().label().as_str()).concat(" reserve ").concat(
                reserve.to_text().as_str(),
            ).concat(" below withdrawal ").concat(ticket.quoted_assets().to_text().as_str());
            return Err(CrownError::InsufficientAssets(msg));
        }
        let ghost s0 = *self;
        let claim = self.claims.consume_claim(redemption_id, day)?;
        proof {
            assert forall|x: u64| #[trigger] self.spec_claims().spec_claims().contains_key(x) implies x <= self.ids().last_redemption() by {
                assert(s0.spec_claims().spec_claims().contains_key(x));
            }
            self.lemma_wf_from(&s0);
            self.lemma_vault_ids(k);
        }
        let withdrawn = self.vault_mut(ticket.vault())?.withdraw_ticket(redemption_id, day)?;
        proof { self.lemma_vault_ids(k); }
        let ghost s2 = *self;
        let credited = match self.accounts.get_mut(withdrawn.account()) {
            Ok(a) => a.portfolio_mut().credit_asset(withdrawn.asset(), claim.amount()),
            Err(e) => Err(e),
        };
        proof {
            assert(self.spec_accounts().spec_accounts().dom() =~= s2.spec_accounts().spec_accounts().dom());
            self.lemma_wf_from(&s2);
        }
        credited?;
        let ghost s3 = *self;
        let completed = self.limits.complete(withdrawn.account(), withdrawn.vault(), withdrawn.requested_day(), withdrawn.shares());
        proof { self.lemma_wf_from(&s3); }
        completed?;
        let event = self.ledger.event(day, EventKind::WithdrawalCompleted).account(withdrawn.account()).vault(withdrawn.vault()).asset(
            withdrawn.asset(),
        ).redemption(withdrawn.id()).amount(claim.amount()).build();
        proof {
            let j = self.last_journal();
            JournalId::lemma_view(event@.id, JournalId::spec_new(j), j);
        }
        self.ledger.record(event);
        let ghost mid = *self;
        proof {
            self.lemma_wf_from(&mid);
            if old(self).shares_balanced() {
                self.lemma_held_same(old(self), withdrawn.spec_account()@);
                self.lemma_balanced_keep(old(self));
            }
        }
        let r = self.check_invariants();
        proof {
            self.lemma_checks_same(&mid);
            self.lemma_withdraw_applied_ledger(&mid, old(self), redemption_id);
            assert(self.spec_events() =~= old(self).spec_events().push(event@) + check_events(old(self).spec_day(), (old(self).last_journal() + 1) as u64, self.check_event_count()));
            if old(self).backed() {
                Self::law_withdraw_keeps_backing(old(self), &*self, redemption_id);
                if old(self).shares_balanced() {
                    self.lemma_consistent_checks();
                }
            }
        }
        r?;
        let mut redemptions: Vec<RedemptionId> = Vec::new();
        redemptions.push(withdrawn.id());
        proof {
            RedemptionId::lemma_view(withdrawn.spec_id(), redemption_id, redemption_id@);
            assert(redemptions@ =~= seq![redemption_id]);
        }
        Ok(WithdrawalReceipt {
            account: withdrawn.account(),
            vault: withdrawn.vault(),
            asset: withdrawn.asset(),
            amount: claim.amount(),
            redemptions,
        })
    }

    /// The error code the sweep of the due claims `ms` is refused with at
    /// claim `i`, before anything changes: the reserve cannot pay it on top
    /// of the earlier ones, its ticket is missing or not pending unlock, the
    /// account is missing, or its balance would overflow; empty when claim
    /// `i` passes these checks.
    pub open spec fn sweep_refusal(&self, ms: Seq<PriorityClaim>, i: int, account: AccountId, vault: VaultId) -> Seq<char> {
        let v = self.spec_vaults()[vault@];
        let m = v.spec_tickets();
        let id = ms[i].spec_redemption_id()@;
        let paid = claims_amount(ms.take(i + 1));
        let a = self.spec_accounts().spec_accounts()[account@];
        if v.spec_reserve() < paid {
            "insufficient_assets"@
        } else if !m.contains_key(id) {
            "missing_ticket"@
        } else if !(m[id].spec_status() is PendingUnlock) {
            "invalid_status"@
        } else if !self.spec_accounts().spec_accounts().contains_key(account@) {
            "missing_account"@
        } else if a.spec_portfolio().spec_asset(v.spec_asset()) + paid > amount_max() {
            "arithmetic"@
        } else {
            Seq::empty()
        }
    }

    /// The first claim the sweep is refused at is the only one.
    proof fn lemma_first_refusal(&self, ms: Seq<PriorityClaim>, p: int, account: AccountId, vault: VaultId)
        requires
            0 <= p < ms.len(),
            self.sweep_refusal(ms, p, account, vault).len() != 0,
            forall|j: int| 0 <= j < p ==> self.sweep_refusal(ms, j, account, vault).len() == 0,
        ensures
            forall|i: int| 0 <= i < ms.len() && self.sweep_refusal(ms, i, account, vault).len() != 0
                && (forall|j: int| 0 <= j < i ==> self.sweep_refusal(ms, j, account, vault).len() == 0) ==> i == p,
            !(forall|j: int| 0 <= j < ms.len() ==> self.sweep_refusal(ms, j, account, vault).len() == 0),
            self.sweep_code(ms, p, account, vault).len() != 0,
    {
        assert forall|i: int| 0 <= i < ms.len() && self.sweep_refusal(ms, i, account, vault).len() != 0
            && (forall|j: int| 0 <= j < i ==> self.sweep_refusal(ms, j, account, vault).len() == 0) implies i == p by {
            if i > p {
                assert(self.sweep_refusal(ms, p, account, vault).len() != 0);
            }
        }
    }

    /// The error code the sweep fails with at claim `i`, the earlier ones
    /// having gone through: a refusal of `sweep_refusal`, or the overflow of
    /// the completed volume; empty when claim `i` goes through.
    pub open spec fn sweep_code(&self, ms: Seq<PriorityClaim>, i: int, account: AccountId, vault: VaultId) -> Seq<char> {
        let m = self.spec_vaults()[vault@].spec_tickets();
        let t = m[ms[i].spec_redemption_id()@];
        if self.sweep_refusal(ms, i, account, vault).len() != 0 {
            self.sweep_refusal(ms, i, account, vault)
        } else if self.spec_limits().spec_bucket(t.spec_account(), t.spec_vault(), t.spec_requested_day()).spec_completed()
            + completed_for(m, ms.take(i + 1), t.spec_account(), t.spec_vault(), t.spec_requested_day()) > amount_max() {
            "arithmetic"@
        } else {
            Seq::empty()
        }
    }

    /// The text of the error of `sweep_code` at the `i`-th due claim.
    pub open spec fn sweep_detail(&self, ms: Seq<PriorityClaim>, i: int, account: AccountId, vault: VaultId) -> Seq<char> {
        let v = self.spec_vaults()[vault@];
        let m = v.spec_tickets();
        let id = ms[i].spec_redemption_id()@;
        if v.spec_reserve() < claims_amount(ms.take(i + 1)) {
            shortfall_detail(vault@, (v.spec_reserve() - claims_amount(ms.take(i))) as nat, ms[i].spec_amount()@)
        } else if !m.contains_key(id) {
            "rdm-"@ + decimal(id as nat)
        } else if !(m[id].spec_status() is PendingUnlock) {
            m[id].status_detail(transition_verb(RedemptionStatus::Withdrawn))
        } else if !self.spec_accounts().spec_accounts().contains_key(account@) {
            "acct-"@ + decimal(account@ as nat)
        } else {
            "amount addition overflow"@
        }
    }

    /// `self` is `pre` after the claims of the account on the vault due
    /// today were swept: each is consumed, its amount left the reserve, and
    /// the tickets of those pending unlock are withdrawn, their quotes
    /// leaving the pending assets.
    pub open spec fn sweep_applied(&self, pre: &Self, account: AccountId, vault: VaultId) -> bool {
        let v = pre.spec_vaults()[vault@];
        let m = v.spec_tickets();
        let day = pre.spec_day();
        let ms = mature_claims(pre.spec_claims().claim_entries(), account, vault, day);
        let nv = self.spec_vaults()[vault@];
        let ce = pre.spec_claims().claim_entries();
        &&& self.changes_only(pre, false, ms.len() > 0, true, false, true, true, false)
        &&& self.spec_claims().claim_entries().len() == ce.len()
        &&& forall|i: int| 0 <= i < ce.len() ==> {
            let e = #[trigger] ce[i];
            self.spec_claims().claim_entries()[i] == if e.1.spec_account() == account && e.1.spec_vault() == vault
                && e.1.spec_is_mature(day) {
                (e.0, e.1.with_state(ClaimState::Consumed))
            } else {
                e
            }
        }
        &&& self.spec_vaults() == pre.spec_vaults().insert(vault@, nv)
        &&& nv.spec_config() == v.spec_config()
        &&& nv.spec_reserve() == v.spec_reserve() - claims_amount(ms)
        &&& nv.spec_total_shares() == v.spec_total_shares()
        &&& nv.spec_pending() == v.spec_pending() - swept_quotes(m, ms)
        &&& nv.spec_tickets() == swept(m, ms)
    }

    /// Pays out every claim of the account on the vault that is due today,
    /// in redemption order, once each of them is checked to be payable (its
    /// ticket pending unlock, the reserve and the account's balance able to
    /// take it): each is consumed, its amount paid out of the reserve and
    /// credited to the account, its ticket withdrawn with its volume recorded
    /// as completed, and each is journaled; then the
    /// reconciliation checks run. Returns the total paid and the redemptions
    /// in order. Fails with `MissingVault` for an unknown vault, and with the
    /// code of `sweep_refusal` at the first claim where it is not empty,
    /// changing nothing in either case; otherwise fails only when a completed
    /// volume overflows, after consuming all the due claims and paying the
    /// earlier ones.
    #[verifier::spinoff_prover]
    pub fn withdraw_available(&mut self, account: AccountId, vault: VaultId) -> (r: CrownResult<WithdrawalReceipt>)
        requires
            old(self).wf(),
            old(self).journal_room(mature_claims(old(self).spec_claims().claim_entries(), account, vault, old(self).spec_day()).len() + 2),
        ensures
            r is Ok && old(self).shares_balanced() ==> final(self).shares_balanced(),
            final(self).wf(),
            ({
                let present = old(self).spec_vaults().contains_key(vault@);
                let v = old(self).spec_vaults()[vault@];
                let m = v.spec_tickets();
                let asset = v.spec_asset();
                let day = old(self).spec_day();
                let ms = mature_claims(old(self).spec_claims().claim_entries(), account, vault, day);
                let a = old(self).spec_accounts().spec_accounts()[account@];
                let na = final(self).spec_accounts().spec_accounts()[account@];
                let nv = final(self).spec_vaults()[vault@];
                let ce = old(self).spec_claims().claim_entries();
                &&& !present ==> (r matches Err(e) && e is MissingVault && e.spec_detail() == "vault-"@
                    + decimal(vault@ as nat) && *final(self) == *old(self))
                &&& present ==> forall|i: int| 0 <= i < ms.len() && old(self).sweep_refusal(ms, i, account, vault).len() != 0
                    && (forall|j: int| 0 <= j < i ==> old(self).sweep_refusal(ms, j, account, vault).len() == 0) ==> (r matches Err(e)
                    && e.spec_code() == old(self).sweep_refusal(ms, i, account, vault)
                    && e.spec_detail() == old(self).sweep_detail(ms, i, account, vault) && *final(self) == *old(self))
                &&& present && (forall|j: int| 0 <= j < ms.len() ==> old(self).sweep_refusal(ms, j, account, vault).len() == 0)
                    ==> forall|i: int| 0 <= i < ms.len() && old(self).sweep_code(ms, i, account, vault).len() != 0
                    && (forall|j: int| 0 <= j < i ==> old(self).sweep_code(ms, j, account, vault).len() == 0) ==> (r matches Err(e)
                    && e.spec_code() == old(self).sweep_code(ms, i, account, vault)
                    && e.spec_detail() == old(self).sweep_detail(ms, i, account, vault))
                &&& present && (forall|i: int| 0 <= i < ms.len() ==> old(self).sweep_code(ms, i, account, vault).len() == 0)
                    && old(self).backed() ==> final(self).backed() && final(self).covered()
                &&& present && (forall|i: int| 0 <= i < ms.len() ==> old(self).sweep_code(ms, i, account, vault).len() == 0)
                    && old(self).consistent() ==> (r is Ok <==> (!final(self).spec_config().spec_invariant_checks()
                    || final(self).totals_fit()))
                &&& present && (forall|i: int| 0 <= i < ms.len() ==> old(self).sweep_code(ms, i, account, vault).len() == 0) ==> (
                    final(self).sweep_applied(old(self), account, vault)
                    && (old(self).shares_balanced() ==> final(self).shares_balanced())
                    && (ms.len() > 0 ==> account_replaced(final(self).spec_accounts(), old(self).spec_accounts(), account@, na)
                        && assets_set(a, na, a.spec_portfolio().assets_view().insert(asset@,
                            Amount::spec_new((a.spec_portfolio().spec_asset(asset) + claims_amount(ms)) as u128))))
                    && (forall|a2: AccountId, v2: VaultId, d2: EpochDay| #[trigger] final(self).spec_limits().spec_bucket(a2, v2, d2).spec_completed()
                        == old(self).spec_limits().spec_bucket(a2, v2, d2).spec_completed() + completed_for(m, ms, a2, v2, d2)
                        && final(self).spec_limits().spec_bucket(a2, v2, d2).spec_requested() == old(self).spec_limits().spec_bucket(a2, v2, d2).spec_requested()
                        && final(self).spec_limits().spec_bucket(a2, v2, d2).spec_released() == old(self).spec_limits().spec_bucket(a2, v2, d2).spec_released())
                    && final(self).ids_moved(old(self), 0, 0, 0, 0, 0, ms.len() + final(self).check_event_count())
                    && final(self).spec_events() == old(self).spec_events() + sweep_events(ms, account, vault, asset, old(self).last_journal(), day)
                        + check_events(day, (old(self).last_journal() + ms.len()) as u64, final(self).check_event_count())
                    && (r is Ok <==> final(self).passes_checks())
                    && (r matches Ok(receipt) ==> receipt.account == account && receipt.vault == vault && receipt.asset == asset
                        && receipt.amount@ == claims_amount(ms)
                        && receipt.redemptions@ == ms.map_values(|c: PriorityClaim| c.spec_redemption_id()))
                    && (r matches Err(e) ==> (e is Arithmetic && !final(self).totals_fit()) || (e is Invariant
                        && final(self).totals_fit()))
                    && (r matches Err(e) ==> (e is Invariant ==> e.spec_detail() == final(self).check_detail())
                        && (e is Arithmetic ==> e.spec_detail() == "amount addition overflow"@)))
            }),
    {
        let ghost pre = *self;
        let day = self.clock.day();
        let asset = self.vault(vault)?.asset();
        proof {
            self.claims.lemma_entries();
            lemma_mature_sorted(self.claims.claim_entries(), account, vault, day);
            self.lemma_vault_ids(vault@);
            self.accounts.lemma_wf();
            lemma_error_codes();
            reveal_strlit("insufficient_assets");
            reveal_strlit("missing_ticket");
            reveal_strlit("invalid_status");
            reveal_strlit("missing_account");
            reveal_strlit("arithmetic");
        }
        let due = self.claims.mature_for_account(account, vault, day);
        let ghost md = due@;
        let state = self.vault(vault)?;
        let reserve = state.reserve_assets();
        let mut paid = Amount::new(0);
        let mut p: usize = 0;
        while p < due.len()
            invariant
                pre == *old(self),
                pre.wf(),
                *self == pre,
                *state == pre.spec_vaults()[vault@],
                pre.spec_vaults().contains_key(vault@),
                state.spec_asset() == asset,
                state.wf(),
                pre.spec_accounts().wf(),
                due@ == md,
                day == pre.spec_day(),
                md == mature_claims(pre.spec_claims().claim_entries(), account, vault, day),
                reserve@ == state.spec_reserve(),
                p <= md.len(),
                paid@ == claims_amount(md.take(p as int)),
                paid@ <= reserve@,
                forall|j: int| 0 <= j < p ==> pre.sweep_refusal(md, j, account, vault).len() == 0,
            decreases md.len() - p,
        {
            let c = due[p];
            proof {
                assert(md.take(p as int + 1).drop_last() =~= md.take(p as int));
                assert(md.take(p as int + 1).last() == c);
                assert(claims_amount(md.take(p as int + 1)) == claims_amount(md.take(p as int)) + c.spec_amount()@);
                lemma_error_codes();
                reveal_strlit("insufficient_assets");
                reveal_strlit("missing_ticket");
                reveal_strlit("invalid_status");
                reveal_strlit("missing_account");
                reveal_strlit("arithmetic");
                self.accounts.lemma_wf();
            }
            if reserve.raw() - paid.raw() < c.amount().raw() {
                proof {
                    assert(pre.sweep_refusal(md, p as int, account, vault) == "insufficient_assets"@);
                    assert(pre.sweep_detail(md, p as int, account, vault) == shortfall_detail(vault@,
                        (reserve@ - paid@) as nat, c.spec_amount()@));
                }
                let left = Amount::new(reserve.raw() - paid.raw());
                let msg = String::from_str("vault ").concat(vault.label().as_str()).concat(" reserve ").concat(
                    left.to_text().as_str(),
                ).concat(" below withdrawal ").concat(c.amount().to_text().as_str());
                proof {
                    pre.lemma_first_refusal(md, p as int, account, vault);
                    assert(msg@ == pre.sweep_detail(md, p as int, account, vault));
                    assert(CrownError::InsufficientAssets(msg).spec_code() == pre.sweep_refusal(md, p as int, account, vault));
                }
                return Err(CrownError::InsufficientAssets(msg));
            }
            let next = Amount::new(paid.raw() + c.amount().raw());
            match state.ticket(c.redemption_id()) {
                Ok(t) => {
                    match t.status() {
                        RedemptionStatus::PendingUnlock => {},
                        _ => {
                            proof {
                                assert(pre.sweep_refusal(md, p as int, account, vault) == "invalid_status"@);
                                pre.lemma_first_refusal(md, p as int, account, vault);
                                assert(pre.sweep_detail(md, p as int, account, vault) == t.status_detail(transition_verb(RedemptionStatus::Withdrawn)));
                            }
                            return Err(t.status_error("cannot withdraw"));
                        },
                    }
                },
                Err(e) => {
                    proof {
                        assert(pre.sweep_refusal(md, p as int, account, vault) == "missing_ticket"@);
                        pre.lemma_first_refusal(md, p as int, account, vault);
                    }
                    return Err(e);
                },
            }
            match self.accounts.get(account) {
                Ok(holder) => {
                    match holder.portfolio().asset_balance(asset).checked_add(next) {
                        Ok(_) => {},
                        Err(e) => {
                            proof {
                                assert(pre.sweep_refusal(md, p as int, account, vault) == "arithmetic"@);
                                pre.lemma_first_refusal(md, p as int, account, vault);
                            }
                            return Err(e);
                        },
                    }
                },
                Err(e) => {
                    proof {
                        assert(pre.sweep_refusal(md, p as int, account, vault) == "missing_account"@);
                        pre.lemma_first_refusal(md, p as int, account, vault);
                    }
                    return Err(e);
                },
            }
            paid = next;
            p = p + 1;
        }
        let ghost s0 = *self;
        let claims = match self.claims.consume_mature_for_account(account, vault, day) {
            Ok(c) => c,
            Err(e) => {
                return Err(e);
            },
        };
        proof {
            assert forall|x: u64| #[trigger] self.spec_claims().spec_claims().contains_key(x) implies x <= self.ids().last_redemption() by {
                assert(self.spec_claims().spec_claims().dom().contains(x));
                assert(s0.spec_claims().spec_claims().contains_key(x));
            }
            self.lemma_wf_from(&s0);
        }
        let ghost s1 = *self;
        let ghost ms = claims@;
        let ghost v = pre.spec_vaults()[vault@];
        let ghost m = v.spec_tickets();
        let ghost a0 = pre.spec_accounts().spec_accounts()[account@];
        let ghost bal0 = a0.spec_portfolio().spec_asset(asset);
        let mut total = Amount::new(0);
        let mut ids: Vec<RedemptionId> = Vec::new();
        let mut i: usize = 0;
        while i < claims.len()
            invariant
                self.wf(),
                pre.wf(),
                pre == *old(self),
                claims@ == ms,
                ms == mature_claims(pre.spec_claims().claim_entries(), account, vault, day),
                forall|x: int, y: int| 0 <= x < y < ms.len() ==> (#[trigger] ms[x]).spec_redemption_id()@ < (#[trigger] ms[y]).spec_redemption_id()@,
                forall|x: int| 0 <= x < ms.len() ==> (#[trigger] ms[x]).spec_account() == account && ms[x].spec_vault() == vault,
                pre.spec_vaults().contains_key(vault@),
                v == pre.spec_vaults()[vault@],
                m == v.spec_tickets(),
                asset == v.spec_asset(),
                day == pre.spec_day(),
                a0 == pre.spec_accounts().spec_accounts()[account@],
                bal0 == a0.spec_portfolio().spec_asset(asset),
                s1.spec_vaults() == pre.spec_vaults(),
                s1.vault_entries() == pre.vault_entries(),
                s1.spec_accounts() == pre.spec_accounts(),
                s1.spec_limits() == pre.spec_limits(),
                s1.spec_ledger() == pre.spec_ledger(),
                s1.spec_day() == pre.spec_day(),
                s1.spec_config() == pre.spec_config(),
                pre.last_journal() + ms.len() + 2 <= u64::MAX,
                i <= ms.len(),
                self.changes_only(&s1, false, true, true, false, false, true, false),
                self.spec_vaults() == s1.spec_vaults().insert(vault@, self.spec_vaults()[vault@]),
                self.spec_vaults()[vault@].spec_config() == v.spec_config(),
                self.spec_vaults()[vault@].spec_reserve() == v.spec_reserve() - claims_amount(ms.take(i as int)),
                self.spec_vaults()[vault@].spec_total_shares() == v.spec_total_shares(),
                self.spec_vaults()[vault@].spec_pending() == v.spec_pending() - swept_quotes(m, ms.take(i as int)),
                self.spec_vaults()[vault@].spec_tickets() == swept(m, ms.take(i as int)),
                i == 0 ==> self.spec_accounts() == s1.spec_accounts(),
                i > 0 ==> pre.spec_accounts().spec_accounts().contains_key(account@)
                    && account_replaced(self.spec_accounts(), pre.spec_accounts(), account@, self.spec_accounts().spec_accounts()[account@])
                    && assets_set(a0, self.spec_accounts().spec_accounts()[account@], a0.spec_portfolio().assets_view().insert(asset@,
                        Amount::spec_new((bal0 + claims_amount(ms.take(i as int))) as u128))),
                forall|a2: AccountId, v2: VaultId, d2: EpochDay| #[trigger] self.spec_limits().spec_bucket(a2, v2, d2).spec_completed()
                    == pre.spec_limits().spec_bucket(a2, v2, d2).spec_completed() + completed_for(m, ms.take(i as int), a2, v2, d2)
                    && self.spec_limits().spec_bucket(a2, v2, d2).spec_requested() == pre.spec_limits().spec_bucket(a2, v2, d2).spec_requested()
                    && self.spec_limits().spec_bucket(a2, v2, d2).spec_released() == pre.spec_limits().spec_bucket(a2, v2, d2).spec_released(),
                total@ == claims_amount(ms.take(i as int)),
                bal0 + claims_amount(ms.take(i as int)) <= amount_max(),
                ids@ == ms.take(i as int).map_values(|c: PriorityClaim| c.spec_redemption_id()),
                self.ids_moved(&s1, 0, 0, 0, 0, 0, i as nat),
                self.spec_events() == s1.spec_events() + sweep_events(ms.take(i as int), account, vault, asset, s1.last_journal(), day),
                forall|j: int| 0 <= j < i ==> pre.sweep_code(ms, j, account, vault).len() == 0,
                forall|j: int| 0 <= j < ms.len() ==> pre.sweep_refusal(ms, j, account, vault).len() == 0,
            decreases ms.len() - i,
        {
            let claim = claims[i];
            let id = claim.redemption_id();
            let amount = claim.amount();
            let ghost code = pre.sweep_code(ms, i as int, account, vault);
            let ghost si = *self;
            proof {
                lemma_counter_names();
                lemma_error_codes();
                reveal_strlit("insufficient_assets");
                reveal_strlit("missing_ticket");
                reveal_strlit("invalid_status");
                reveal_strlit("missing_account");
                reveal_strlit("arithmetic");
                let tk = ms.take(i as int);
                assert(ms.take(i as int + 1).drop_last() =~= tk);
                assert forall|j: int| 0 <= j < tk.len() implies (#[trigger] tk[j]).spec_redemption_id()@ != id@ by {
                    assert(tk[j] == ms[j]);
                }
                lemma_swept(m, tk, id@);
                self.lemma_vault_ids(vault@);
                self.spec_vaults()[vault@].lemma_wf();
                v.lemma_wf();
                m[id@].lemma_with_status(RedemptionStatus::Withdrawn);
                self.accounts.lemma_wf();
                assert(ms.take(i as int + 1).last() == ms[i as int]);
                assert(claims_amount(ms.take(i as int + 1)) == claims_amount(tk) + amount@);
                assert(swept_quotes(m, ms.take(i as int + 1)) == swept_quotes(m, tk) + if m[id@].spec_status() is PendingUnlock { m[id@].spec_quoted()@ } else { 0 });
            }
            let settled = self.vault_mut(vault)?.settle_external_claim(amount);
            match settled {
                Ok(()) => {},
                Err(e) => {
                    proof { assert(code.len() != 0 && e.spec_code() == code); }
                    return Err(e);
                },
            }
            proof { self.lemma_vault_ids(vault@); }
            let completed = self.vault_mut(vault)?.complete_ticket_from_claim(id);
            match completed {
                Ok(_) => {},
                Err(e) => {
                    proof { assert(code.len() != 0 && e.spec_code() == code); }
                    return Err(e);
                },
            }
            proof { self.lemma_vault_ids(vault@); }
            let ghost s2 = *self;
            let credited = match self.accounts.get_mut(account) {
                Ok(a) => a.portfolio_mut().credit_asset(asset, amount),
                Err(e) => Err(e),
            };
            proof {
                assert(self.spec_accounts().spec_accounts().dom() =~= s2.spec_accounts().spec_accounts().dom());
                self.lemma_wf_from(&s2);
            }
            proof {
                let tk = ms.take(i as int);
                let cur = s2.spec_accounts().spec_accounts()[account@];
                if i == 0 {
                    assert(tk.len() == 0);
                    assert(claims_amount(tk) == 0);
                    assert(cur == a0);
                }
                assert(cur.spec_portfolio().spec_asset(asset) == bal0 + claims_amount(tk));
            }
            match credited {
                Ok(()) => {},
                Err(e) => {
                    proof { assert(code.len() != 0 && e.spec_code() == code); }
                    return Err(e);
                },
            }
            proof {
                let nacc = self.spec_accounts().spec_accounts()[account@];
                assert(nacc.spec_portfolio().assets_view() =~= a0.spec_portfolio().assets_view().insert(asset@,
                    Amount::spec_new((bal0 + claims_amount(ms.take(i as int + 1))) as u128)));
                if i > 0 {
                    let p = pre.spec_accounts().position_of(account@);
                    s2.spec_accounts().lemma_position(p);
                    assert(self.spec_accounts().spec_entries() =~= pre.spec_accounts().spec_entries().update(p, (account@, nacc)));
                    assert(self.spec_accounts().spec_accounts() =~= pre.spec_accounts().spec_accounts().insert(account@, nacc));
                }
                assert(account_replaced(self.spec_accounts(), pre.spec_accounts(), account@, nacc));
            }
            let ghost s3 = *self;
            let state = self.vault(vault)?;
            let ghost t0 = m[id@];
            match state.ticket(id) {
                Ok(ticket) => {
                    let done = match ticket.status() {
                        RedemptionStatus::Withdrawn => true,
                        _ => false,
                    };
                    if done {
                        let marked = self.limits.complete(ticket.account(), ticket.vault(), ticket.requested_day(), ticket.shares());
                        proof { self.lemma_wf_from(&s3); }
                        match marked {
                            Ok(()) => {},
                            Err(e) => {
                                proof { assert(code.len() != 0 && e.spec_code() == code); }
                                return Err(e);
                            },
                        }
                    }
                },
                Err(_) => {},
            }
            total = total.checked_add(amount)?;
            ids.push(id);
            let event = self.ledger.event(day, EventKind::WithdrawalCompleted).account(account).vault(vault).asset(asset).redemption(
                id,
            ).amount(amount).note("account sweep").build();
            proof {
                let j = self.last_journal();
                JournalId::lemma_view(event@.id, JournalId::spec_new(j), j);
            }
            self.ledger.record(event);
            proof {
                self.lemma_wf_from(&s3);
                let paid = claims_amount(ms.take(i as int + 1));
                assert(v.spec_reserve() >= paid);
                assert(m.contains_key(id@));
                assert(!(m[id@].spec_status() is Queued));
                assert(pre.spec_accounts().spec_accounts().contains_key(account@));
                assert(a0.spec_portfolio().spec_asset(asset) + paid <= amount_max());
                assert(code.len() == 0);
                assert(self.spec_events() =~= s1.spec_events() + sweep_events(ms.take(i as int + 1), account, vault, asset, s1.last_journal(), day));
                assert(ids@ =~= ms.take(i as int + 1).map_values(|c: PriorityClaim| c.spec_redemption_id()));
                assert(self.spec_vaults()[vault@].spec_tickets() =~= swept(m, ms.take(i as int + 1)));
                assert(si.spec_limits() == s3.spec_limits());
                assert forall|a2: AccountId, v2: VaultId, d2: EpochDay| #[trigger] self.spec_limits().spec_bucket(a2, v2, d2).spec_completed()
                    == pre.spec_limits().spec_bucket(a2, v2, d2).spec_completed() + completed_for(m, ms.take(i as int + 1), a2, v2, d2)
                    && self.spec_limits().spec_bucket(a2, v2, d2).spec_requested() == pre.spec_limits().spec_bucket(a2, v2, d2).spec_requested()
                    && self.spec_limits().spec_bucket(a2, v2, d2).spec_released() == pre.spec_limits().spec_bucket(a2, v2, d2).spec_released() by {
                    assert(si.spec_limits().spec_bucket(a2, v2, d2).spec_completed()
                        == pre.spec_limits().spec_bucket(a2, v2, d2).spec_completed() + completed_for(m, ms.take(i as int), a2, v2, d2));
                    assert(completed_for(m, ms.take(i as int + 1), a2, v2, d2) == completed_for(m, ms.take(i as int), a2, v2, d2)
                        + if ends_withdrawn(t0) && t0.spec_account() == a2 && t0.spec_vault() == v2 && t0.spec_requested_day() == d2 {
                            t0.spec_shares()@
                        } else {
                            0
                        });
                }
            }
            i = i + 1;
        }
        proof {
            assert(ms.take(ms.len() as int) =~= ms);
            let ce = pre.spec_claims().claim_entries();
            assert(self.spec_claims() == s1.spec_claims());
            assert(self.spec_claims().claim_entries().len() == ce.len());
            assert(forall|i: int| 0 <= i < ce.len() ==> {
                let e = #[trigger] ce[i];
                self.spec_claims().claim_entries()[i] == if e.1.spec_account() == account && e.1.spec_vault() == vault
                    && e.1.spec_is_mature(day) {
                    (e.0, e.1.with_state(ClaimState::Consumed))
                } else {
                    e
                }
            });
            assert(self.changes_only(&pre, false, ms.len() > 0, true, false, true, true, false));
        }
        let ghost mid = *self;
        proof {
            self.lemma_wf_from(&mid);
            if old(self).shares_balanced() {
                if ms.len() > 0 {
                    self.lemma_held_same(old(self), account@);
                }
                self.lemma_balanced_keep(old(self));
            }
        }
        let r = self.check_invariants();
        proof {
            self.lemma_checks_same(&mid);
            assert(self.spec_events() =~= old(self).spec_events() + sweep_events(ms, account, vault, asset, old(self).last_journal(), day)
                + check_events(day, (old(self).last_journal() + ms.len()) as u64, self.check_event_count()));
        }
        proof {
            lemma_counter_names();
            let v = old(self).spec_vaults()[vault@];
            let nv = self.spec_vaults()[vault@];
            assert(self.changes_only(old(self), false, ms.len() > 0, true, false, true, true, false));
            assert(self.spec_vaults() == old(self).spec_vaults().insert(vault@, nv));
            assert(nv.spec_reserve() == v.spec_reserve() - claims_amount(ms));
            assert(nv.spec_pending() == v.spec_pending() - swept_quotes(m, ms));
            assert(nv.spec_tickets() == swept(m, ms));
            assert(forall|a2: AccountId, v2: VaultId, d2: EpochDay| #[trigger] self.spec_limits().spec_bucket(a2, v2, d2).spec_completed()
                == old(self).spec_limits().spec_bucket(a2, v2, d2).spec_completed() + completed_for(m, ms, a2, v2, d2));
            assert(self.ids_moved(old(self), 0, 0, 0, 0, 0, ms.len() + self.check_event_count()));
            if old(self).backed() {
                assert(self.sweep_applied(old(self), account, vault));
                Self::law_sweep_keeps_backing(old(self), &*self, account, vault);
                if old(self).shares_balanced() {
                    self.lemma_consistent_checks();
                }
            }
        }
        r?;
        Ok(WithdrawalReceipt { account, vault, asset, amount: total, redemptions: ids })
    }

    /// The redemptions of the vault in the order they would be served.
    pub fn queue_order(&self, vault: VaultId) -> (r: Vec<RedemptionId>)
        requires
            self.wf(),
        ensures
            r@ == service_order(self.spec_queue().spec_items(vault), self.spec_queue().spec_items(vault).len()).map_values(
                |it: QueueItem| it.spec_redemption_id(),
            ),
    {
        self.queue.peek_order(vault)
    }

    /// The volume of the account in the vault counted against the day's
    /// limit: requested minus released.
    pub fn daily_active(&self, account: AccountId, vault: VaultId, day: EpochDay) -> (r: CrownResult<Amount>)
        requires
            self.wf(),
        ensures
            r matches Ok(a) && a@ == self.spec_limits().spec_bucket(account, vault, day).spec_active(),
    {
        proof { self.limits.lemma_active_nonnegative(account, vault, day); }
        self.limits.active_for(account, vault, day)
    }

    /// The priority capacity of the vault still available on the day; fails
    /// with `MissingVault`, or with `Arithmetic` when more than the capacity
    /// is in use.
    pub fn priority_available(&self, vault: VaultId, day: EpochDay) -> (r: CrownResult<Amount>)
        requires
            self.wf(),
        ensures
            !self.spec_vaults().contains_key(vault@) ==> (r matches Err(e) && e is MissingVault
                && e.spec_detail() == "vault-"@ + decimal(vault@ as nat)),
            ({
                let cap = self.spec_vaults()[vault@].spec_policy().spec_priority().spec_daily_capacity()@;
                let net = self.spec_capacity().spec_bucket(vault, day).spec_net();
                &&& self.spec_vaults().contains_key(vault@) && net <= cap ==> (r matches Ok(a) && a@ == cap - net)
                &&& self.spec_vaults().contains_key(vault@) && net > cap ==> (r matches Err(e) && e is Arithmetic
                    && e.spec_detail() == "amount subtraction underflow"@)
            }),
    {
        proof { self.capacity.lemma_net_nonnegative(vault, day); }
        let policy = self.vault(vault)?.policy();
        self.capacity.available(vault, day, policy.priority())
    }

    /// Account number `k` carries the label and tier and holds `shares`
    /// shares of vault 1 and nothing else.
    pub open spec fn holder(&self, k: u64, label: Seq<char>, tier: AccountTier, shares: nat) -> bool {
        let a = self.spec_accounts().spec_accounts()[k];
        &&& a.spec_id()@ == k
        &&& a.spec_label() == label
        &&& a.spec_tier() == tier
        &&& a.spec_portfolio().shares_view().dom() == set![1u64]
        &&& a.spec_portfolio().spec_share(VaultId::spec_new(1)) == shares
        &&& a.spec_portfolio().assets_view() == Map::<u64, Amount>::empty()
        &&& a.spec_portfolio().pending_view() == Map::<u64, Amount>::empty()
    }

    /// The state the fixture builds: on day 0 with the checks on, one asset
    /// `cUSD`, one vault backed one for one by the 8000 shares that alice,
    /// bob, carol and dan hold, no ticket or claim, and eighteen journal
    /// entries.
    pub open spec fn is_fixture(&self) -> bool {
        let m = self.spec_assets().spec_assets()[1];
        let v = self.spec_vaults()[1];
        let p = v.spec_policy();
        &&& self.wf()
        &&& self.spec_config().spec_invariant_checks()
        &&& self.spec_day()@ == 0
        &&& self.quiet()
        &&& self.shares_balanced()
        &&& self.passes_checks()
        &&& self.spec_assets().spec_assets().dom() == set![1u64]
        &&& m.spec_symbol() == "cUSD"@
        &&& m.spec_name() == "Crown settlement dollar"@
        &&& m.spec_decimals() == 6
        &&& m.spec_minimum_redemption()@ == 1
        &&& self.spec_vaults().dom() == set![1u64]
        &&& v.spec_config().spec_name() == "Crown DTL senior vault"@
        &&& v.spec_asset() == AssetId::spec_new(1)
        &&& v.spec_reserve() == 8000
        &&& v.spec_total_shares() == 8000
        &&& v.spec_pending() == 0
        &&& v.spec_tickets() == Map::<u64, RedemptionTicket>::empty()
        &&& v.spec_config().window_entries().len() == 2
        &&& opening_window(v.spec_config().window_entries()[0], 1, WindowKind::Priority, 1)
        &&& opening_window(v.spec_config().window_entries()[1], 2, WindowKind::Standard, 3)
        &&& p.spec_daily_limits().spec_standard()@ == 750
        &&& p.spec_daily_limits().spec_vip()@ == 1250
        &&& p.spec_daily_limits().spec_institutional()@ == 2500
        &&& p.spec_priority().spec_daily_capacity()@ == 1500
        &&& p.spec_priority().spec_per_user()@ == 1000
        &&& p.spec_priority().spec_priority_delay() == 1
        &&& p.spec_priority().spec_standard_delay() == 3
        &&& p.spec_priority().spec_max_queue_depth() == 128
        &&& p.spec_priority().spec_fee_bps() == 25
        &&& p.spec_minimum_ticket()@ == 10
        &&& p.spec_max_ticket()@ == 2000
        &&& self.spec_accounts().spec_accounts().dom() == set![1u64, 2u64, 3u64, 4u64]
        &&& self.holder(1, "alice"@, AccountTier::Standard, 2000)
        &&& self.holder(2, "bob"@, AccountTier::Vip, 2000)
        &&& self.holder(3, "carol"@, AccountTier::Institutional, 3000)
        &&& self.holder(4, "dan"@, AccountTier::Standard, 1000)
        &&& self.ids().last_asset() == 1
        &&& self.ids().last_account() == 4
        &&& self.ids().last_vault() == 1
        &&& self.ids().last_window() == 2
        &&& self.ids().last_redemption() == 0
        &&& self.last_journal() == 18
        &&& self.spec_events().len() == 18
        &&& forall|v: VaultId| #[trigger] self.spec_queue().spec_items(v).len() == 0 && self.spec_queue().spec_sequence(v) == 0
        &&& self.spec_claims().spec_claims() == Map::<u64, PriorityClaim>::empty()
        &&& forall|a: AccountId, v: VaultId, d: EpochDay| #[trigger] self.spec_limits().spec_bucket(a, v, d).spec_requested() == 0
            && self.spec_limits().spec_bucket(a, v, d).spec_released() == 0
            && self.spec_limits().spec_bucket(a, v, d).spec_completed() == 0
        &&& forall|v: VaultId, d: EpochDay| #[trigger] self.spec_capacity().spec_bucket(v, d).spec_consumed() == 0
            && self.spec_capacity().spec_bucket(v, d).spec_released() == 0
    }

    /// In the fixture the first vault is number 1, and alice, bob, carol
    /// and dan are accounts 1 to 4, each found by its label and by no other.
    pub proof fn lemma_fixture_lookup(&self)
        requires
            self.is_fixture(),
        ensures
            self.vault_entries().len() > 0,
            self.vault_entries()[0].0 == 1,
            self.spec_accounts().has_label("alice"@),
            self.spec_accounts().has_label("bob"@),
            self.spec_accounts().has_label("carol"@),
            self.spec_accounts().has_label("dan"@),
            forall|k: u64| #[trigger] self.spec_accounts().spec_accounts().contains_key(k) ==> {
                let l = lower(self.spec_accounts().spec_accounts()[k].spec_label());
                &&& (l == lower("alice"@) <==> k == 1)
                &&& (l == lower("bob"@) <==> k == 2)
                &&& (l == lower("carol"@) <==> k == 3)
                &&& (l == lower("dan"@) <==> k == 4)
            },
    {
        let p = self.vaults.lemma_key(1);
        self.lemma_vault_entry(0);
        let reg = self.spec_accounts();
        let m = reg.spec_accounts();
        reveal_strlit("alice");
        reveal_strlit("bob");
        reveal_strlit("carol");
        reveal_strlit("dan");
        assert(lower("alice"@).len() != lower("bob"@).len());
        assert(lower("alice"@)[0] != lower("carol"@)[0]);
        assert(lower("alice"@).len() != lower("dan"@).len());
        assert(lower("bob"@).len() != lower("carol"@).len());
        assert(lower("bob"@)[0] != lower("dan"@)[0]);
        assert(lower("carol"@).len() != lower("dan"@).len());
        reg.lemma_key(1);
        reg.lemma_key(2);
        reg.lemma_key(3);
        reg.lemma_key(4);
        assert(reg.spec_entries()[reg.position_of(1)].1.spec_label() == "alice"@);
        assert(reg.spec_entries()[reg.position_of(2)].1.spec_label() == "bob"@);
        assert(reg.spec_entries()[reg.position_of(3)].1.spec_label() == "carol"@);
        assert(reg.spec_entries()[reg.position_of(4)].1.spec_label() == "dan"@);
        assert forall|k: u64| #[trigger] m.contains_key(k) implies {
            let l = lower(m[k].spec_label());
            &&& (l == lower("alice"@) <==> k == 1)
            &&& (l == lower("bob"@) <==> k == 2)
            &&& (l == lower("carol"@) <==> k == 3)
            &&& (l == lower("dan"@) <==> k == 4)
        } by {
            assert(set![1u64, 2u64, 3u64, 4u64].contains(k));
        }
    }

    /// No registered account's label equals `label` up to ASCII case.
    proof fn lemma_label_free(&self, label: Seq<char>)
        requires
            self.wf(),
            forall|k: u64| #[trigger] self.spec_accounts().spec_accounts().contains_key(k) ==> lower(
                self.spec_accounts().spec_accounts()[k].spec_label(),
            ) != lower(label),
        ensures
            !self.spec_accounts().has_label(label),
    {
        if self.spec_accounts().has_label(label) {
            let es = self.spec_accounts().spec_entries();
            let i = choose|i: int| 0 <= i < es.len() && lower((#[trigger] es[i]).1.spec_label()) == lower(label);
            self.spec_accounts().lemma_wf_entry(i);
            assert(self.spec_accounts().spec_accounts().contains_key(es[i].0));
        }
    }

    /// The demonstration engine: asset `cUSD`, the vault "Crown DTL senior
    /// vault" under the fixture policy, accounts alice (standard), bob (VIP),
    /// carol (institutional) and dan (standard), minted 2000, 2000, 3000 and
    /// 1000 shares.
    #[verifier::spinoff_prover]
    #[verifier::rlimit(100)]
    pub fn fixture() -> (r: Self)
        ensures
            r.is_fixture(),
            r.consistent(),
    {
        let mut engine = CrownEngine::new(EngineConfig::default());
        proof {
            reveal_strlit("cUSD");
            reveal_strlit("Crown DTL senior vault");
            assert(!is_space("cUSD"@[0]));
            assert(!is_space("Crown DTL senior vault"@[0]));
        }
        let asset = engine.register_asset("cUSD", "Crown settlement dollar", 6, Amount::from_u64(1)).unwrap();
        let policy = Self::fixture_policy().unwrap();
        let vault = engine.open_vault("Crown DTL senior vault", asset, policy).unwrap();
        proof {
            AssetId::lemma_view(asset, asset, 1);
            VaultId::lemma_view(vault, vault, 1);
            assert(engine.quiet());
            assert(engine.shares_balanced()) by {
                assert forall|k: u64| #[trigger] held_shares(engine.spec_accounts().spec_entries(), k) == engine.supply(k) by {
                    assert(engine.spec_accounts().spec_entries().len() == 0) by {
                        if engine.spec_accounts().spec_entries().len() > 0 {
                            engine.spec_accounts().lemma_wf_entry(0);
                        }
                    }
                    if k == 1 {
                        assert(engine.spec_vaults().contains_key(1));
                    } else {
                        assert(!engine.spec_vaults().contains_key(k));
                    }
                }
            }
            reveal_strlit("alice");
            assert(!is_space("alice"@[0]));
            engine.lemma_label_free("alice"@);
        }
        let alice = engine.register_account("alice", AccountTier::Standard).unwrap();
        proof {
            AccountId::lemma_view(alice, alice, 1);
            reveal_strlit("bob");
            assert(!is_space("bob"@[0]));
            assert(lower("alice"@).len() != lower("bob"@).len());
            engine.lemma_label_free("bob"@);
        }
        let bob = engine.register_account("bob", AccountTier::Vip).unwrap();
        proof {
            AccountId::lemma_view(bob, bob, 2);
            reveal_strlit("carol");
            assert(!is_space("carol"@[0]));
            assert(lower("alice"@)[0] != lower("carol"@)[0]);
            assert(lower("bob"@).len() != lower("carol"@).len());
            engine.lemma_label_free("carol"@);
        }
        let carol = engine.register_account("carol", AccountTier::Institutional).unwrap();
        proof {
            AccountId::lemma_view(carol, carol, 3);
            reveal_strlit("dan");
            assert(!is_space("dan"@[0]));
            assert(lower("alice"@).len() != lower("dan"@).len());
            assert(lower("carol"@).len() != lower("dan"@).len());
            assert(lower("bob"@)[0] != lower("dan"@)[0]);
            engine.lemma_label_free("dan"@);
        }
        let dan = engine.register_account("dan", AccountTier::Standard).unwrap();
        proof {
            AccountId::lemma_view(dan, dan, 4);
            assert(engine.quiet());
        }
        let r = engine.mint_position(alice, vault, Amount::from_u64(2000));
        proof {
            assert(engine.quiet());
            engine.lemma_no_assets();
            engine.lemma_checks_pass();
        }
        r.unwrap();
        let r = engine.mint_position(bob, vault, Amount::from_u64(2000));
        proof {
            assert(engine.quiet());
            engine.lemma_no_assets();
            engine.lemma_checks_pass();
        }
        r.unwrap();
        let r = engine.mint_position(carol, vault, Amount::from_u64(3000));
        proof {
            assert(engine.quiet());
            engine.lemma_no_assets();
            engine.lemma_checks_pass();
        }
        r.unwrap();
        let r = engine.mint_position(dan, vault, Amount::from_u64(1000));
        proof {
            assert(engine.quiet());
            engine.lemma_no_assets();
            engine.lemma_checks_pass();
        }
        r.unwrap();
        proof {
            assert(engine.spec_vaults().dom() =~= set![1u64]);
            assert(engine.spec_accounts().spec_accounts().dom() =~= set![1u64, 2u64, 3u64, 4u64]);
            assert(engine.wf());
            assert(engine.quiet());
            assert(engine.shares_balanced());
            assert(engine.passes_checks());
            assert(forall|v: VaultId| #[trigger] engine.spec_queue().spec_items(v).len() == 0 && engine.spec_queue().spec_sequence(v) == 0);
            assert(engine.is_fixture());
            assert(engine.consistent());
        }
        engine
    }

    /// No claim is open and no account holds assets.
    pub open spec fn quiet(&self) -> bool {
        &&& self.spec_claims().claim_entries().len() == 0
        &&& forall|k: u64| #[trigger] self.spec_accounts().spec_accounts().contains_key(k)
            ==> self.spec_accounts().spec_accounts()[k].spec_portfolio().assets_view() == Map::<u64, Amount>::empty()
    }

    /// Without held assets, every asset total is zero.
    pub proof fn lemma_no_assets(&self)
        requires
            self.wf(),
            forall|k: u64| #[trigger] self.spec_accounts().spec_accounts().contains_key(k)
                ==> self.spec_accounts().spec_accounts()[k].spec_portfolio().assets_view() == Map::<u64, Amount>::empty(),
        ensures
            forall|k: u64| #[trigger] held_assets(self.spec_accounts().spec_entries(), k) == 0,
    {
        let es = self.spec_accounts().spec_entries();
        assert forall|k: u64| #[trigger] held_assets(es, k) == 0 by {
            assert forall|i: int| 0 <= i < es.len() implies (|a: Account| balance_of(a.spec_portfolio().assets_view(), k))(
                #[trigger] es[i].1) == 0 by {
                self.spec_accounts().lemma_wf_entry(i);
            }
            crate::idmap::lemma_sum_zero(es, |a: Account| balance_of(a.spec_portfolio().assets_view(), k));
        }
    }

    /// The reserve of vault number `k`, zero when there is no such vault.
    pub open spec fn reserve_of(&self, k: u64) -> nat {
        if self.spec_vaults().contains_key(k) {
            self.spec_vaults()[k].spec_reserve()
        } else {
            0
        }
    }

    /// With balanced shares, asset totals that fit an amount and open claims
    /// that each vault's reserve covers, the reconciliation checks pass.
    pub proof fn lemma_checks_pass(&self)
        requires
            self.wf(),
            self.shares_balanced(),
            forall|k: u64| #[trigger] held_assets(self.spec_accounts().spec_entries(), k) <= amount_max(),
            forall|k: u64| #[trigger] owed_claims(self.spec_claims().claim_entries(), k) <= self.reserve_of(k),
        ensures
            self.passes_checks(),
            self.check_event_count() == if self.spec_config().spec_invariant_checks() { 2nat } else { 0nat },
    {
        let es = self.spec_accounts().spec_entries();
        assert forall|k: u64| #[trigger] held_shares(es, k) <= amount_max() by {
            assert(held_shares(es, k) == self.supply(k));
            if self.spec_vaults().contains_key(k) {
                self.spec_vaults()[k].lemma_bounded();
            }
        }
        assert forall|k: u64| #[trigger] owed_claims(self.spec_claims().claim_entries(), k) <= amount_max() by {
            assert(owed_claims(self.spec_claims().claim_entries(), k) <= self.reserve_of(k));
            if self.spec_vaults().contains_key(k) {
                self.spec_vaults()[k].lemma_bounded();
            }
        }
        assert(self.totals_fit());
        assert(self.conserved());
        assert forall|k: u64| #[trigger] self.spec_vaults().contains_key(k) implies self.spec_vaults()[k].spec_reserve()
            >= owed_claims(self.spec_claims().claim_entries(), k) by {
            assert(owed_claims(self.spec_claims().claim_entries(), k) <= self.reserve_of(k));
        }
        assert(self.covered());
    }

    /// Claims numbered `lo` to `lo + n - 1` are the claim entries, in
    /// order.
    pub proof fn lemma_dense_claims(&self, lo: nat, n: nat)
        requires
            self.wf(),
            lo + n <= u64::MAX + 1,
            forall|k: u64| #[trigger] self.spec_claims().spec_claims().contains_key(k) <==> lo <= k < lo + n,
        ensures
            self.spec_claims().claim_entries().len() == n,
            forall|i: int| 0 <= i < n ==> (#[trigger] self.spec_claims().claim_entries()[i]).0 == lo + i
                && self.spec_claims().claim_entries()[i].1 == self.spec_claims().spec_claims()[(lo + i) as u64],
    {
        let ce = self.spec_claims().claim_entries();
        self.spec_claims().lemma_view_entries();
        self.spec_claims().lemma_entries();
        self.spec_claims().lemma_wf();
        assert forall|k: u64| #[trigger] crate::idmap::has_key(ce, k) <==> lo <= k < lo + n by {
            assert(crate::idmap::entries_map(ce).contains_key(k) == crate::idmap::has_key(ce, k));
            assert(self.spec_claims().spec_claims().contains_key(k) <==> lo <= k < lo + n);
        }
        crate::idmap::lemma_dense_keys(ce, lo, n);
    }

    /// Accounts numbered 1 to `n` are the account entries, in order.
    pub proof fn lemma_dense_accounts(&self, n: nat)
        requires
            self.wf(),
            n <= u64::MAX,
            forall|k: u64| #[trigger] self.spec_accounts().spec_accounts().contains_key(k) <==> 1 <= k <= n,
        ensures
            self.spec_accounts().spec_entries().len() == n,
            forall|i: int| 0 <= i < n ==> (#[trigger] self.spec_accounts().spec_entries()[i]).0 == i + 1
                && self.spec_accounts().spec_entries()[i].1 == self.spec_accounts().spec_accounts()[(i + 1) as u64],
    {
        let es = self.spec_accounts().spec_entries();
        self.spec_accounts().lemma_view_entries();
        self.spec_accounts().lemma_sorted();
        self.spec_accounts().lemma_wf();
        assert forall|k: u64| #[trigger] crate::idmap::has_key(es, k) <==> 1 <= k <= n by {
            assert(crate::idmap::entries_map(es).contains_key(k) == crate::idmap::has_key(es, k));
            assert(self.spec_accounts().spec_accounts().contains_key(k) <==> 1 <= k <= n);
        }
        crate::idmap::lemma_dense_keys(es, 1, n);
    }

    /// The policy of the fixture's vault: daily limits of 750, 1250 and
    /// 2500 shares by tier; a priority capacity of 1500 a day with 1000 per
    /// account, unlock delays of 1 (priority) and 3 (standard) days, a queue
    /// of at most 128 and a fee of 25 bps; tickets of 10 to 2000 shares.
    pub fn fixture_policy() -> (r: CrownResult<RedemptionPolicy>)
        ensures
            r matches Ok(p) && p.spec_daily_limits().spec_standard()@ == 750 && p.spec_daily_limits().spec_vip()@ == 1250
                && p.spec_daily_limits().spec_institutional()@ == 2500
                && p.spec_priority().spec_daily_capacity()@ == 1500 && p.spec_priority().spec_per_user()@ == 1000
                && p.spec_priority().spec_priority_delay() == 1 && p.spec_priority().spec_standard_delay() == 3
                && p.spec_priority().spec_max_queue_depth() == 128 && p.spec_priority().spec_fee_bps() == 25
                && p.spec_minimum_ticket()@ == 10 && p.spec_max_ticket()@ == 2000,
    {
        let daily = DailyLimitPolicy::new(Amount::from_u64(750), Amount::from_u64(1_250), Amount::from_u64(2_500))?;
        let priority = PriorityPolicy::new(Amount::from_u64(1_500), Amount::from_u64(1_000), 1, 3, 128, 25)?;
        RedemptionPolicy::new(daily, priority, Amount::from_u64(10), Amount::from_u64(2_000))
    }
}

impl Default for CrownEngine {
    fn default() -> (r: Self)
        ensures
            r.wf(),
            r.spec_config().spec_invariant_checks(),
            r.spec_day()@ == 0,
            r.vault_entries().len() == 0,
            r.spec_accounts().spec_entries().len() == 0,
            r.spec_events().len() == 0,
            r.last_journal() == 0,
    {
        CrownEngine::new(EngineConfig::default())
    }
}

} // verus!
