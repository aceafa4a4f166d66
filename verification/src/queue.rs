use vstd::prelude::*;
use crate::accounts::AccountTier;
use crate::amount::{amount_max, Amount};
use crate::clock::EpochDay;
use crate::error::{CrownError, CrownResult};
use crate::idmap::IdMap;
use crate::ids::{AccountId, RedemptionId, Sequence, VaultId, WindowId};
use crate::text::decimal;

verus! {

broadcast use crate::amount::group_amount;

#[derive(Debug, Clone, Copy, PartialEq, Eq, Structural, PartialOrd, Ord)]
pub enum Lane {
    Priority,
    Standard,
}

impl Lane {
    pub open spec fn spec_base_score(self) -> u32 {
        match self {
            Lane::Priority => 1000,
            Lane::Standard => 100,
        }
    }

    pub open spec fn spec_label(self) -> Seq<char> {
        match self {
            Lane::Priority => "priority"@,
            Lane::Standard => "standard"@,
        }
    }

    pub fn label(self) -> (r: &'static str)
        ensures
            r@ == self.spec_label(),
    {
        match self {
            Lane::Priority => "priority",
            Lane::Standard => "standard",
        }
    }

    pub fn base_score(self) -> (r: u32)
        ensures
            r == self.spec_base_score(),
    {
        match self {
            Lane::Priority => 1_000,
            Lane::Standard => 100,
        }
    }

    pub fn is_priority(self) -> (r: bool)
        ensures
            r == (self is Priority),
    {
        match self {
            Lane::Priority => true,
            Lane::Standard => false,
        }
    }
}

/// What is needed to place a redemption in a vault's queue.
#[derive(Debug, Clone, PartialEq, Eq)]
pub struct QueueRequest {
    pub redemption_id: RedemptionId,
    pub account: AccountId,
    pub vault: VaultId,
    pub amount: Amount,
    pub lane: Lane,
    pub tier: AccountTier,
    pub requested_day: EpochDay,
    pub window: WindowId,
}

/// A queued redemption with its arrival number and service score.
#[derive(Debug, Clone, Copy, PartialEq, Eq, Structural)]
pub struct QueueItem {
    redemption_id: RedemptionId,
    account: AccountId,
    vault: VaultId,
    amount: Amount,
    lane: Lane,
    tier: AccountTier,
    requested_day: EpochDay,
    window: WindowId,
    sequence: u64,
    score: u32,
}

impl QueueItem {
    pub closed spec fn spec_redemption_id(self) -> RedemptionId {
        self.redemption_id
    }

    pub closed spec fn spec_account(self) -> AccountId {
        self.account
    }

    pub closed spec fn spec_vault(self) -> VaultId {
        self.vault
    }

    pub closed spec fn spec_amount(self) -> Amount {
        self.amount
    }

    pub closed spec fn spec_lane(self) -> Lane {
        self.lane
    }

    pub closed spec fn spec_tier(self) -> AccountTier {
        self.tier
    }

    pub closed spec fn spec_requested_day(self) -> EpochDay {
        self.requested_day
    }

    pub closed spec fn spec_window(self) -> WindowId {
        self.window
    }

    pub closed spec fn spec_sequence(self) -> u64 {
        self.sequence
    }

    pub closed spec fn spec_score(self) -> u32 {
        self.score
    }

    /// The item built from `request` with arrival number `sequence`.
    pub open spec fn made_from(self, request: QueueRequest, sequence: u64) -> bool {
        &&& self.spec_redemption_id() == request.redemption_id
        &&& self.spec_account() == request.account
        &&& self.spec_vault() == request.vault
        &&& self.spec_amount() == request.amount
        &&& self.spec_lane() == request.lane
        &&& self.spec_tier() == request.tier
        &&& self.spec_requested_day() == request.requested_day
        &&& self.spec_window() == request.window
        &&& self.spec_sequence() == sequence
        &&& self.spec_score() == request.lane.spec_base_score() + request.tier.spec_priority_weight()
    }

    /// The score is the lane's base score plus the tier's weight.
    pub fn from_request(request: QueueRequest, sequence: u64) -> (r: Self)
        ensures
            r.made_from(request, sequence),
    {
        let score = request.lane.base_score() + request.tier.priority_weight();
        QueueItem {
            redemption_id: request.redemption_id,
            account: request.account,
            vault: request.vault,
            amount: request.amount,
            lane: request.lane,
            tier: request.tier,
            requested_day: request.requested_day,
            window: request.window,
            sequence,
            score,
        }
    }

    pub fn redemption_id(&self) -> (r: RedemptionId)
        ensures
            r == self.spec_redemption_id(),
    {
        self.redemption_id
    }

    pub fn account(&self) -> (r: AccountId)
        ensures
            r == self.spec_account(),
    {
        self.account
    }

    pub fn vault(&self) -> (r: VaultId)
        ensures
            r == self.spec_vault(),
    {
        self.vault
    }

    pub fn amount(&self) -> (r: Amount)
        ensures
            r == self.spec_amount(),
    {
        self.amount
    }

    pub fn lane(&self) -> (r: Lane)
        ensures
            r == self.spec_lane(),
    {
        self.lane
    }

    pub fn tier(&self) -> (r: AccountTier)
        ensures
            r == self.spec_tier(),
    {
        self.tier
    }

    pub fn requested_day(&self) -> (r: EpochDay)
        ensures
            r == self.spec_requested_day(),
    {
        self.requested_day
    }

    pub fn window(&self) -> (r: WindowId)
        ensures
            r == self.spec_window(),
    {
        self.window
    }

    pub fn sequence(&self) -> (r: u64)
        ensures
            r == self.spec_sequence(),
    {
        self.sequence
    }

    pub fn score(&self) -> (r: u32)
        ensures
            r == self.spec_score(),
    {
        self.score
    }
}

/// `a` is served before `b`: a higher score first, then earlier arrival.
pub open spec fn precedes(a: QueueItem, b: QueueItem) -> bool {
    a.spec_score() > b.spec_score() || (a.spec_score() == b.spec_score() && a.spec_sequence()
        < b.spec_sequence())
}

/// `s[b]` is served next: nothing precedes it, and it precedes every earlier
/// item (so among items served equally it is the first).
pub open spec fn is_next(s: Seq<QueueItem>, b: int) -> bool {
    &&& 0 <= b < s.len()
    &&& forall|j: int| 0 <= j < s.len() ==> !precedes(#[trigger] s[j], s[b])
    &&& forall|j: int| 0 <= j < b ==> precedes(s[b], #[trigger] s[j])
}

/// The position of the item served next.
pub open spec fn next_index(s: Seq<QueueItem>) -> int {
    choose|b: int| is_next(s, b)
}

/// The first `n` items in the order they are served.
pub open spec fn service_order(s: Seq<QueueItem>, n: nat) -> Seq<QueueItem>
    decreases n,
{
    if n == 0 || s.len() == 0 {
        Seq::empty()
    } else {
        seq![s[next_index(s)]] + service_order(s.remove(next_index(s)), (n - 1) as nat)
    }
}

/// Items of lane `lane` in `s`.
pub open spec fn lane_count(s: Seq<QueueItem>, lane: Lane) -> nat
    decreases s.len(),
{
    if s.len() == 0 {
        0
    } else {
        lane_count(s.drop_last(), lane) + if s.last().spec_lane() == lane { 1nat } else { 0nat }
    }
}

/// Total amount of the items of `s`.
pub open spec fn queued_amount(s: Seq<QueueItem>) -> nat
    decreases s.len(),
{
    if s.len() == 0 { 0 } else { queued_amount(s.drop_last()) + s.last().spec_amount()@ }
}

/// The served-next position is unique.
pub proof fn lemma_next_unique(s: Seq<QueueItem>, b: int)
    requires
        is_next(s, b),
    ensures
        next_index(s) == b,
{
    let c = choose|c: int| is_next(s, c);
    assert(is_next(s, c));
    if c < b {
        assert(precedes(s[b], s[c]));
        assert(!precedes(s[b], s[c]));
    } else if c > b {
        assert(precedes(s[c], s[b]));
    }
}

/// A non-empty queue has an item to serve next.
pub proof fn lemma_next_exists(s: Seq<QueueItem>)
    requires
        s.len() > 0,
    ensures
        is_next(s, next_index(s)),
{
    let b = first_best(s, s.len() as int);
    assert(is_next(s, b));
    lemma_next_unique(s, b);
}

/// The position chosen among the first `n` items by scanning them in order.
proof fn first_best(s: Seq<QueueItem>, n: int) -> (b: int)
    requires
        1 <= n <= s.len(),
    ensures
        0 <= b < n,
        forall|j: int| 0 <= j < n ==> !precedes(#[trigger] s[j], s[b]),
        forall|j: int| 0 <= j < b ==> precedes(s[b], #[trigger] s[j]),
    decreases n,
{
    if n == 1 {
        0
    } else {
        let b = first_best(s, n - 1);
        if precedes(s[n - 1], s[b]) {
            assert forall|j: int| 0 <= j < n implies !precedes(#[trigger] s[j], s[n - 1]) by {
                if j < n - 1 {
                    assert(!precedes(s[j], s[b]));
                }
            }
            assert forall|j: int| 0 <= j < n - 1 implies precedes(s[n - 1], #[trigger] s[j]) by {
                assert(!precedes(s[j], s[b]));
            }
            n - 1
        } else {
            b
        }
    }
}

/// Depth, volume and head of a vault's queue.
#[derive(Debug, Clone, PartialEq, Eq)]
pub struct QueueSnapshot {
    vault: VaultId,
    priority_depth: usize,
    standard_depth: usize,
    total_amount: Amount,
    head: Option<RedemptionId>,
}

impl QueueSnapshot {
    pub closed spec fn spec_vault(&self) -> VaultId {
        self.vault
    }

    pub closed spec fn spec_priority_depth(&self) -> usize {
        self.priority_depth
    }

    pub closed spec fn spec_standard_depth(&self) -> usize {
        self.standard_depth
    }

    pub closed spec fn spec_total_amount(&self) -> Amount {
        self.total_amount
    }

    pub closed spec fn spec_head(&self) -> Option<RedemptionId> {
        self.head
    }

    pub fn vault(&self) -> (r: VaultId)
        ensures
            r == self.spec_vault(),
    {
        self.vault
    }

    pub fn priority_depth(&self) -> (r: usize)
        ensures
            r == self.spec_priority_depth(),
    {
        self.priority_depth
    }

    pub fn standard_depth(&self) -> (r: usize)
        ensures
            r == self.spec_standard_depth(),
    {
        self.standard_depth
    }

    pub fn total_amount(&self) -> (r: Amount)
        ensures
            r == self.spec_total_amount(),
    {
        self.total_amount
    }

    pub fn head(&self) -> (r: Option<RedemptionId>)
        ensures
            r == self.spec_head(),
    {
        self.head
    }
}

/// The waiting redemptions of every vault.
#[derive(Debug, Clone)]
pub struct QueueBook {
    items: IdMap<Vec<QueueItem>>,
    sequences: IdMap<Sequence>,
}

impl QueueBook {
    pub closed spec fn wf(&self) -> bool {
        self.items.wf() && self.sequences.wf()
    }

    /// The queue of a vault, in arrival order.
    pub closed spec fn spec_items(&self, vault: VaultId) -> Seq<QueueItem> {
        if self.items.view().contains_key(vault@) {
            self.items.view()[vault@]@
        } else {
            Seq::empty()
        }
    }

    /// The last arrival number handed out in a vault.
    pub closed spec fn spec_sequence(&self, vault: VaultId) -> u64 {
        if self.sequences.view().contains_key(vault@) {
            self.sequences.view()[vault@]@
        } else {
            0
        }
    }

    /// Only the queue and counter of `vault` differ between the books.
    pub open spec fn same_except(&self, other: &Self, vault: VaultId) -> bool {
        forall|v: VaultId|
            v != vault ==> #[trigger] self.spec_items(v) == other.spec_items(v)
                && self.spec_sequence(v) == other.spec_sequence(v)
    }

    pub fn new() -> (r: Self)
        ensures
            r.wf(),
            forall|v: VaultId| #[trigger] r.spec_items(v).len() == 0 && r.spec_sequence(v) == 0,
    {
        QueueBook { items: IdMap::new(), sequences: IdMap::new() }
    }

    /// Appends the request to its vault's queue with the next arrival
    /// number; fails with `QueueCapacity` when the queue already holds
    /// `max_depth` items.
    pub fn enqueue(&mut self, request: QueueRequest, max_depth: usize) -> (r: CrownResult<QueueItem>)
        requires
            old(self).wf(),
            old(self).spec_sequence(request.vault) < u64::MAX,
        ensures
            final(self).wf(),
            final(self).same_except(old(self), request.vault),
            old(self).spec_items(request.vault).len() >= max_depth ==> (r matches Err(e)
                && e is QueueCapacity && e.spec_detail() == "vault "@ + "vault-"@ + decimal(request.vault@ as nat)
                + " queue depth "@ + decimal(old(self).spec_items(request.vault).len()) + " reached"@
                && *final(self) == *old(self)),
            old(self).spec_items(request.vault).len() < max_depth ==> (r matches Ok(item)
                && item.made_from(request, (old(self).spec_sequence(request.vault) + 1) as u64)
                && final(self).spec_sequence(request.vault) == old(self).spec_sequence(request.vault) + 1
                && final(self).spec_items(request.vault) == old(self).spec_items(request.vault).push(item)),
    {
        let vault = request.vault;
        let depth = self.depth(vault);
        if depth >= max_depth {
            let msg = String::from_str("vault ").concat(vault.label().as_str()).concat(
                " queue depth ",
            ).concat(crate::text::decimal_string(depth as u128).as_str()).concat(" reached");
            return Err(CrownError::QueueCapacity(msg));
        }
        let mut seq = match self.sequences.get(vault.raw()) {
            Some(s) => *s,
            None => Sequence::new(0),
        };
        let sequence = seq.bump();
        self.sequences.insert(vault.raw(), seq);
        let item = QueueItem::from_request(request, sequence);
        match self.items.get_mut(vault.raw()) {
            Some(list) => {
                list.push(item);
            },
            None => {
                let mut list: Vec<QueueItem> = Vec::new();
                list.push(item);
                self.items.insert(vault.raw(), list);
            },
        }
        proof {
            assert forall|v: VaultId| v != vault implies #[trigger] self.spec_items(v) == old(self).spec_items(v)
                && self.spec_sequence(v) == old(self).spec_sequence(v) by {
                VaultId::lemma_view(v, vault, 0);
            }
            assert(self.spec_items(vault) =~= old(self).spec_items(vault).push(item));
        }
        Ok(item)
    }

    /// Removes the queued item of the redemption; fails with `MissingTicket`
    /// when it is not queued in the vault.
    pub fn cancel(&mut self, vault: VaultId, redemption_id: RedemptionId) -> (r: CrownResult<QueueItem>)
        requires
            old(self).wf(),
        ensures
            final(self).wf(),
            final(self).same_except(old(self), vault),
            final(self).spec_sequence(vault) == old(self).spec_sequence(vault),
            (forall|i: int| 0 <= i < old(self).spec_items(vault).len() ==> (#[trigger] old(self).spec_items(vault)[i]).spec_redemption_id() != redemption_id) ==> (
            r matches Err(e) && e is MissingTicket && e.spec_detail() == "rdm-"@ + decimal(redemption_id@ as nat)
                && final(self).spec_items(vault) == old(
                self,
            ).spec_items(vault)),
            r matches Ok(item) ==> exists|i: int|
                0 <= i < old(self).spec_items(vault).len() && old(self).spec_items(vault)[i] == item
                    && item.spec_redemption_id() == redemption_id && (forall|j: int|
                    0 <= j < i ==> (#[trigger] old(self).spec_items(vault)[j]).spec_redemption_id()
                        != redemption_id) && final(self).spec_items(vault) == old(self).spec_items(
                    vault,
                ).remove(i),
            (exists|i: int| 0 <= i < old(self).spec_items(vault).len() && (#[trigger] old(self).spec_items(vault)[i]).spec_redemption_id() == redemption_id) ==> r is Ok,
    {
        let missing = redemption_id.label();
        let ghost s = old(self).spec_items(vault);
        let pos = match self.items.get(vault.raw()) {
            None => {
                assert(s.len() == 0);
                None
            },
            Some(list) => {
                assert(list@ == s);
                Self::position(list, redemption_id)
            },
        };
        match pos {
            None => {
                Err(CrownError::MissingTicket(missing))
            },
            Some(i) => {
                match self.items.get_mut(vault.raw()) {
                    Some(list) => {
                        assert(list@ == s);
                        let item = list.remove(i);
                        proof {
                            assert forall|v: VaultId| v != vault implies #[trigger] self.spec_items(v) == old(self).spec_items(v)
                                && self.spec_sequence(v) == old(self).spec_sequence(v) by {
                                VaultId::lemma_view(v, vault, 0);
                            }
                        }
                        Ok(item)
                    },
                    None => {
                        Err(CrownError::MissingTicket(missing))
                    },
                }
            },
        }
    }

    /// The first position of the redemption in `list`.
    fn position(list: &Vec<QueueItem>, redemption_id: RedemptionId) -> (r: Option<usize>)
        ensures
            r matches Some(i) ==> i < list@.len() && list@[i as int].spec_redemption_id() == redemption_id
                && forall|j: int| 0 <= j < i ==> (#[trigger] list@[j]).spec_redemption_id() != redemption_id,
            r is None ==> forall|j: int| 0 <= j < list@.len() ==> (#[trigger] list@[j]).spec_redemption_id() != redemption_id,
    {
        let mut i: usize = 0;
        while i < list.len()
            invariant
                i <= list@.len(),
                forall|j: int| 0 <= j < i ==> (#[trigger] list@[j]).spec_redemption_id() != redemption_id,
            decreases list@.len() - i,
        {
            if list[i].redemption_id == redemption_id {
                return Some(i);
            }
            i = i + 1;
        }
        None
    }

    /// The position of the item served next among `list`.
    /// Whether `left` is served before `right`.
    fn item_precedes(left: &QueueItem, right: &QueueItem) -> (r: bool)
        ensures
            r == precedes(*left, *right),
    {
        left.score() > right.score() || (left.score() == right.score() && left.sequence() < right.sequence())
    }

    fn next_position(list: &Vec<QueueItem>) -> (b: usize)
        requires
            list@.len() > 0,
        ensures
            is_next(list@, b as int),
            b as int == next_index(list@),
    {
        let mut best: usize = 0;
        let mut i: usize = 1;
        while i < list.len()
            invariant
                1 <= i <= list@.len(),
                best < i,
                forall|j: int| 0 <= j < i ==> !precedes(#[trigger] list@[j], list@[best as int]),
                forall|j: int| 0 <= j < best ==> precedes(list@[best as int], #[trigger] list@[j]),
            decreases list@.len() - i,
        {
            if Self::item_precedes(&list[i], &list[best]) {
                proof {
                    assert forall|j: int| 0 <= j < i + 1 implies !precedes(#[trigger] list@[j], list@[i as int]) by {
                        if j < i {
                            assert(!precedes(list@[j], list@[best as int]));
                        }
                    }
                    assert forall|j: int| 0 <= j < i implies precedes(list@[i as int], #[trigger] list@[j]) by {
                        assert(!precedes(list@[j], list@[best as int]));
                    }
                }
                best = i;
            }
            i = i + 1;
        }
        proof { lemma_next_unique(list@, best as int); }
        best
    }

    /// Removes and returns the item served next in the vault: the highest
    /// score, earliest arrival first. `None` when the queue is empty.
    pub fn pop_next(&mut self, vault: VaultId) -> (r: Option<QueueItem>)
        requires
            old(self).wf(),
        ensures
            final(self).wf(),
            final(self).same_except(old(self), vault),
            final(self).spec_sequence(vault) == old(self).spec_sequence(vault),
            old(self).spec_items(vault).len() == 0 ==> r is None && final(self).spec_items(vault)
                == old(self).spec_items(vault),
            old(self).spec_items(vault).len() > 0 ==> r == Some(
                old(self).spec_items(vault)[next_index(old(self).spec_items(vault))],
            ) && final(self).spec_items(vault) == old(self).spec_items(vault).remove(
                next_index(old(self).spec_items(vault)),
            ),
    {
        match self.items.get_mut(vault.raw()) {
            None => {
                proof {
                    assert forall|v: VaultId| v != vault implies #[trigger] self.spec_items(v) == old(self).spec_items(v)
                        && self.spec_sequence(v) == old(self).spec_sequence(v) by {}
                }
                None
            },
            Some(list) => {
                if list.len() == 0 {
                    proof {
                        assert forall|v: VaultId| v != vault implies #[trigger] self.spec_items(v) == old(self).spec_items(v)
                            && self.spec_sequence(v) == old(self).spec_sequence(v) by {
                            VaultId::lemma_view(v, vault, 0);
                        }
                    }
                    return None;
                }
                let best = Self::next_position(list);
                let item = list.remove(best);
                proof {
                    assert forall|v: VaultId| v != vault implies #[trigger] self.spec_items(v) == old(self).spec_items(v)
                        && self.spec_sequence(v) == old(self).spec_sequence(v) by {
                        VaultId::lemma_view(v, vault, 0);
                    }
                }
                Some(item)
            },
        }
    }

    /// Serves up to `limit` items of the vault, in service order.
    pub fn pop_batch(&mut self, vault: VaultId, limit: usize) -> (r: Vec<QueueItem>)
        requires
            old(self).wf(),
        ensures
            final(self).wf(),
            final(self).same_except(old(self), vault),
            final(self).spec_sequence(vault) == old(self).spec_sequence(vault),
            r@ == service_order(old(self).spec_items(vault), limit as nat),
            final(self).spec_items(vault) == drop_served(old(self).spec_items(vault), limit as nat),
    {
        let mut out: Vec<QueueItem> = Vec::new();
        let mut k: usize = 0;
        while k < limit
            invariant
                self.wf(),
                k <= limit,
                self.same_except(old(self), vault),
                self.spec_sequence(vault) == old(self).spec_sequence(vault),
                out@ + service_order(self.spec_items(vault), (limit - k) as nat) == service_order(
                    old(self).spec_items(vault),
                    limit as nat,
                ),
                drop_served(self.spec_items(vault), (limit - k) as nat) == drop_served(
                    old(self).spec_items(vault),
                    limit as nat,
                ),
            decreases limit - k,
        {
            let ghost before = self.spec_items(vault);
            let ghost self_before = *self;
            match self.pop_next(vault) {
                Some(item) => {
                    proof {
                        assert(service_order(before, (limit - k) as nat) =~= seq![item] + service_order(self.spec_items(vault), (limit - k - 1) as nat));
                        assert(out@.push(item) + service_order(self.spec_items(vault), (limit - k - 1) as nat) =~= out@ + service_order(before, (limit - k) as nat));
                        assert forall|v: VaultId| v != vault implies #[trigger] self.spec_items(v) == old(self).spec_items(v)
                            && self.spec_sequence(v) == old(self).spec_sequence(v) by {
                            assert(self_before.spec_items(v) == old(self).spec_items(v));
                        }
                    }
                    out.push(item);
                },
                None => {
                    proof {
                        assert(service_order(before, (limit - k) as nat) =~= Seq::<QueueItem>::empty());
                        assert(out@ + service_order(before, (limit - k) as nat) =~= out@);
                        assert forall|v: VaultId| v != vault implies #[trigger] self.spec_items(v) == old(self).spec_items(v)
                            && self.spec_sequence(v) == old(self).spec_sequence(v) by {
                            assert(self_before.spec_items(v) == old(self).spec_items(v));
                        }
                    }
                    return out;
                },
            }
            k = k + 1;
        }
        proof {
            assert(out@ + service_order(self.spec_items(vault), 0) =~= out@);
        }
        out
    }

    /// Redemptions of the vault in the order they would be served.
    pub fn peek_order(&self, vault: VaultId) -> (r: Vec<RedemptionId>)
        requires
            self.wf(),
        ensures
            r@ == service_order(self.spec_items(vault), self.spec_items(vault).len()).map_values(
                |it: QueueItem| it.spec_redemption_id(),
            ),
    {
        let mut rest: Vec<QueueItem> = Vec::new();
        match self.items.get(vault.raw()) {
            Some(list) => {
                let mut i: usize = 0;
                while i < list.len()
                    invariant
                        i <= list@.len(),
                        rest@ == list@.take(i as int),
                    decreases list@.len() - i,
                {
                    rest.push(list[i]);
                    proof { assert(list@.take(i as int + 1) =~= list@.take(i as int).push(list@[i as int])); }
                    i = i + 1;
                }
                proof { assert(list@.take(list@.len() as int) =~= list@); }
            },
            None => {},
        }
        let ghost all = rest@;
        let mut out: Vec<RedemptionId> = Vec::new();
        while rest.len() > 0
            invariant
                out@ + service_order(rest@, rest@.len()).map_values(|it: QueueItem| it.spec_redemption_id())
                    == service_order(all, all.len()).map_values(|it: QueueItem| it.spec_redemption_id()),
            decreases rest@.len(),
        {
            let ghost before = rest@;
            let b = Self::next_position(&rest);
            let item = rest.remove(b);
            proof {
                assert(service_order(before, before.len()) =~= seq![item] + service_order(rest@, rest@.len()));
                assert((seq![item] + service_order(rest@, rest@.len())).map_values(|it: QueueItem| it.spec_redemption_id())
                    =~= seq![item.spec_redemption_id()] + service_order(rest@, rest@.len()).map_values(|it: QueueItem| it.spec_redemption_id()));
                assert(out@.push(item.spec_redemption_id()) + service_order(rest@, rest@.len()).map_values(|it: QueueItem| it.spec_redemption_id())
                    =~= out@ + service_order(before, before.len()).map_values(|it: QueueItem| it.spec_redemption_id()));
            }
            out.push(item.redemption_id());
        }
        proof {
            assert(service_order(rest@, rest@.len()).map_values(|it: QueueItem| it.spec_redemption_id()) =~= Seq::<RedemptionId>::empty());
            assert(out@ =~= service_order(all, all.len()).map_values(|it: QueueItem| it.spec_redemption_id()));
        }
        out
    }

    /// Depths by lane, total queued amount and next redemption of the vault;
    /// fails with `Arithmetic` when the total overflows.
    pub fn snapshot(&self, vault: VaultId) -> (r: CrownResult<QueueSnapshot>)
        requires
            self.wf(),
        ensures
            queued_amount(self.spec_items(vault)) > amount_max() ==> (r matches Err(e) && e is Arithmetic
                && e.spec_detail() == "amount addition overflow"@),
            queued_amount(self.spec_items(vault)) <= amount_max() ==> (r matches Ok(s)
                && s.spec_vault() == vault
                && s.spec_priority_depth() == lane_count(self.spec_items(vault), Lane::Priority)
                && s.spec_standard_depth() == lane_count(self.spec_items(vault), Lane::Standard)
                && s.spec_priority_depth() + s.spec_standard_depth() == self.spec_items(vault).len()
                && s.spec_priority_depth() + s.spec_standard_depth() <= usize::MAX
                && s.spec_total_amount()@ == queued_amount(self.spec_items(vault))
                && s.spec_head() == if self.spec_items(vault).len() == 0 {
                None::<RedemptionId>
            } else {
                Some(self.spec_items(vault)[next_index(self.spec_items(vault))].spec_redemption_id())
            }),
    {
        let ghost q = self.spec_items(vault);
        let mut priority_depth: usize = 0;
        let mut standard_depth: usize = 0;
        let mut total_amount = Amount::new(0);
        if let Some(list) = self.items.get(vault.raw()) {
            let mut i: usize = 0;
            while i < list.len()
                invariant
                    list@ == q,
                    q == self.spec_items(vault),
                    i <= q.len(),
                    priority_depth == lane_count(q.take(i as int), Lane::Priority),
                    standard_depth == lane_count(q.take(i as int), Lane::Standard),
                    total_amount@ == queued_amount(q.take(i as int)),
                    priority_depth + standard_depth == i,
                decreases q.len() - i,
            {
                let item = list[i];
                proof {
                    assert(q.take(i as int + 1).drop_last() =~= q.take(i as int));
                    assert(q.take(i as int + 1).last() == item);
                }
                if item.lane.is_priority() {
                    priority_depth = priority_depth + 1;
                } else {
                    standard_depth = standard_depth + 1;
                }
                match total_amount.checked_add(item.amount) {
                    Ok(t) => { total_amount = t; },
                    Err(e) => {
                        proof {
                            lemma_queued_prefix(q, i as int + 1);
                            assert(queued_amount(q.take(i as int + 1)) == queued_amount(q.take(i as int)) + item.spec_amount()@);
                            assert(queued_amount(q) > amount_max());
                        }
                        return Err(e);
                    },
                }
                i = i + 1;
            }
            proof { assert(q.take(q.len() as int) =~= q); }
        } else {
            proof {
                assert(q.len() == 0);
                assert(q.take(0) =~= q);
            }
        }
        let order = self.peek_order(vault);
        let head = if order.len() > 0 { Some(order[0]) } else { None };
        proof {
            if q.len() > 0 {
                assert(service_order(q, q.len())[0] == q[next_index(q)]);
            } else {
                assert(service_order(q, q.len()).len() == 0);
            }
        }
        Ok(QueueSnapshot { vault, priority_depth, standard_depth, total_amount, head })
    }

    pub fn depth(&self, vault: VaultId) -> (r: usize)
        requires
            self.wf(),
        ensures
            r == self.spec_items(vault).len(),
    {
        match self.items.get(vault.raw()) {
            Some(list) => list.len(),
            None => 0,
        }
    }

    pub fn contains(&self, vault: VaultId, redemption_id: RedemptionId) -> (r: bool)
        requires
            self.wf(),
        ensures
            r == exists|i: int| 0 <= i < self.spec_items(vault).len() && (#[trigger] self.spec_items(vault)[i]).spec_redemption_id() == redemption_id,
    {
        match self.items.get(vault.raw()) {
            Some(list) => {
                let mut i: usize = 0;
                while i < list.len()
                    invariant
                        list@ == self.spec_items(vault),
                        i <= list@.len(),
                        forall|j: int| 0 <= j < i ==> (#[trigger] list@[j]).spec_redemption_id() != redemption_id,
                    decreases list@.len() - i,
                {
                    if list[i].redemption_id == redemption_id {
                        return true;
                    }
                    i = i + 1;
                }
                false
            },
            None => false,
        }
    }
}

/// Every served item is an item of the queue.
pub proof fn lemma_service_members(s: Seq<QueueItem>, n: nat)
    ensures
        forall|i: int| 0 <= i < service_order(s, n).len() ==> exists|j: int| 0 <= j < s.len()
            && s[j] == #[trigger] service_order(s, n)[i],
    decreases n,
{
    if n > 0 && s.len() > 0 {
        let b = next_index(s);
        lemma_next_exists(s);
        let rest = s.remove(b);
        lemma_service_members(rest, (n - 1) as nat);
        let so = service_order(s, n);
        assert forall|i: int| 0 <= i < so.len() implies exists|j: int| 0 <= j < s.len() && s[j] == #[trigger] so[i] by {
            if i == 0 {
                assert(s[b] == so[0]);
            } else {
                assert(so[i] == service_order(rest, (n - 1) as nat)[i - 1]);
                let j = choose|j: int| 0 <= j < rest.len() && rest[j] == service_order(rest, (n - 1) as nat)[i - 1];
                if j < b {
                    assert(s[j] == so[i]);
                } else {
                    assert(s[j + 1] == so[i]);
                }
            }
        }
    }
}

/// Items are served by score, higher first, and by arrival among equal
/// scores: no item served later precedes one served earlier.
pub proof fn lemma_service_sorted(s: Seq<QueueItem>, n: nat)
    ensures
        forall|i: int, j: int| 0 <= i < j < service_order(s, n).len() ==> !precedes(
            #[trigger] service_order(s, n)[j],
            #[trigger] service_order(s, n)[i],
        ),
    decreases n,
{
    if n > 0 && s.len() > 0 {
        let b = next_index(s);
        lemma_next_exists(s);
        let rest = s.remove(b);
        lemma_service_sorted(rest, (n - 1) as nat);
        lemma_service_members(rest, (n - 1) as nat);
        let so = service_order(s, n);
        let so2 = service_order(rest, (n - 1) as nat);
        assert forall|i: int, j: int| 0 <= i < j < so.len() implies !precedes(#[trigger] so[j], #[trigger] so[i]) by {
            assert(so[j] == so2[j - 1]);
            if i == 0 {
                let k = choose|k: int| 0 <= k < rest.len() && rest[k] == so2[j - 1];
                if k < b {
                    assert(!precedes(s[k], s[b]));
                } else {
                    assert(!precedes(s[k + 1], s[b]));
                }
            } else {
                assert(so[i] == so2[i - 1]);
            }
        }
    }
}

/// The queue's service order: for items scored by lane and tier, every
/// priority-lane item is served before every standard-lane item, a higher
/// score before a lower one, and among items of the same lane and tier the
/// earlier arrival first.
pub proof fn law_service_order(s: Seq<QueueItem>, n: nat)
    requires
        forall|i: int| 0 <= i < s.len() ==> (#[trigger] s[i]).spec_score() == s[i].spec_lane().spec_base_score()
            + s[i].spec_tier().spec_priority_weight(),
    ensures
        forall|i: int, j: int| #![trigger service_order(s, n)[i], service_order(s, n)[j]]
            0 <= i < j < service_order(s, n).len() ==> {
                let a = service_order(s, n)[i];
                let b = service_order(s, n)[j];
                &&& a.spec_score() >= b.spec_score()
                &&& b.spec_lane() is Priority ==> a.spec_lane() is Priority
                &&& a.spec_lane() == b.spec_lane() && a.spec_tier() == b.spec_tier() ==> a.spec_sequence()
                    <= b.spec_sequence()
            },
{
    lemma_service_sorted(s, n);
    lemma_service_members(s, n);
    let so = service_order(s, n);
    assert forall|i: int, j: int| #![trigger so[i], so[j]] 0 <= i < j < so.len() implies {
        let a = so[i];
        let b = so[j];
        &&& a.spec_score() >= b.spec_score()
        &&& b.spec_lane() is Priority ==> a.spec_lane() is Priority
        &&& a.spec_lane() == b.spec_lane() && a.spec_tier() == b.spec_tier() ==> a.spec_sequence()
            <= b.spec_sequence()
    } by {
        assert(!precedes(so[j], so[i]));
        let ki = choose|k: int| 0 <= k < s.len() && s[k] == so[i];
        let kj = choose|k: int| 0 <= k < s.len() && s[k] == so[j];
        assert(s[ki].spec_score() == s[ki].spec_lane().spec_base_score() + s[ki].spec_tier().spec_priority_weight());
        assert(s[kj].spec_score() == s[kj].spec_lane().spec_base_score() + s[kj].spec_tier().spec_priority_weight());
    }
}

/// What remains of `s` after serving `n` items.
pub open spec fn drop_served(s: Seq<QueueItem>, n: nat) -> Seq<QueueItem>
    decreases n,
{
    if n == 0 || s.len() == 0 {
        s
    } else {
        drop_served(s.remove(next_index(s)), (n - 1) as nat)
    }
}

/// Every item left after serving is an item of the queue.
pub proof fn lemma_drop_member(s: Seq<QueueItem>, n: nat, i: int)
    requires
        0 <= i < drop_served(s, n).len(),
    ensures
        exists|j: int| 0 <= j < s.len() && s[j] == drop_served(s, n)[i],
    decreases n,
{
    if n > 0 && s.len() > 0 {
        let b = next_index(s);
        lemma_next_exists(s);
        let rest = s.remove(b);
        assert(drop_served(s, n) == drop_served(rest, (n - 1) as nat));
        lemma_drop_member(rest, (n - 1) as nat, i);
        let j = choose|j: int| 0 <= j < rest.len() && rest[j] == drop_served(rest, (n - 1) as nat)[i];
        if j < b {
            assert(s[j] == drop_served(s, n)[i]);
        } else {
            assert(s[j + 1] == drop_served(s, n)[i]);
        }
    } else {
        assert(s[i] == drop_served(s, n)[i]);
    }
}

proof fn lemma_queued_prefix(s: Seq<QueueItem>, k: int)
    requires
        0 <= k <= s.len(),
    ensures
        queued_amount(s.take(k)) <= queued_amount(s),
    decreases s.len(),
{
    if k < s.len() {
        assert(s.drop_last().take(k) =~= s.take(k));
        lemma_queued_prefix(s.drop_last(), k);
    } else {
        assert(s.take(k) =~= s);
    }
}

impl Default for QueueBook {
    fn default() -> (r: Self)
        ensures
            r.wf(),
    {
        QueueBook::new()
    }
}

} // verus!
