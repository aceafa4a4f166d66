use vstd::prelude::*;
use crate::accounts::AccountTier;
use crate::text::decimal;
use crate::amount::{amount_max, Amount};
use crate::clock::EpochDay;
use crate::error::{CrownError, CrownResult};
use crate::ids::{AccountId, VaultId};
use std::collections::BTreeMap;

verus! {

broadcast use crate::amount::group_amount, vstd::std_specs::btree::group_btree_axioms, vstd::laws_cmp::group_laws_cmp;

/// Per-tier daily redemption limits.
#[derive(Debug, Clone, Copy, PartialEq, Eq, Structural)]
pub struct DailyLimitPolicy {
    standard_limit: Amount,
    vip_limit: Amount,
    institutional_limit: Amount,
}

impl DailyLimitPolicy {
    pub closed spec fn spec_standard(self) -> Amount {
        self.standard_limit
    }

    pub closed spec fn spec_vip(self) -> Amount {
        self.vip_limit
    }

    pub closed spec fn spec_institutional(self) -> Amount {
        self.institutional_limit
    }

    pub open spec fn spec_for_tier(self, tier: AccountTier) -> Amount {
        match tier {
            AccountTier::Standard => self.spec_standard(),
            AccountTier::Vip => self.spec_vip(),
            AccountTier::Institutional => self.spec_institutional(),
        }
    }

    /// Each tier is held to its own limit: standard accounts to the standard
    /// limit, VIP accounts to the VIP limit, institutional accounts to the
    /// institutional limit.
    pub proof fn law_limit_of_own_tier(self, tier: AccountTier)
        ensures
            tier is Standard ==> self.spec_for_tier(tier) == self.spec_standard(),
            tier is Vip ==> self.spec_for_tier(tier) == self.spec_vip(),
            tier is Institutional ==> self.spec_for_tier(tier) == self.spec_institutional(),
    {
    }

    /// Fails with `InvalidAmount` for a zero limit (standard, vip,
    /// institutional, in that order), then with `InvalidPolicy` when the
    /// limits do not grow with the tier.
    pub fn new(standard_limit: Amount, vip_limit: Amount, institutional_limit: Amount) -> (r:
        CrownResult<Self>)
        ensures
            standard_limit@ == 0 ==> (r matches Err(e) && e is InvalidAmount && e.spec_detail()
                == "standard daily limit"@ + " must be non-zero"@),
            standard_limit@ != 0 && vip_limit@ == 0 ==> (r matches Err(e) && e is InvalidAmount
                && e.spec_detail() == "vip daily limit"@ + " must be non-zero"@),
            standard_limit@ != 0 && vip_limit@ != 0 && institutional_limit@ == 0 ==> (r matches Err(
                e,
            ) && e is InvalidAmount && e.spec_detail() == "institutional daily limit"@ + " must be non-zero"@),
            standard_limit@ != 0 && vip_limit@ != 0 && institutional_limit@ != 0 && (
            standard_limit@ > vip_limit@ || vip_limit@ > institutional_limit@) ==> (r matches Err(e)
                && e is InvalidPolicy && e.spec_detail() == "daily limits must be ordered by tier"@),
            standard_limit@ != 0 && vip_limit@ != 0 && institutional_limit@ != 0
                && standard_limit@ <= vip_limit@ <= institutional_limit@ ==> (r matches Ok(p)
                && p.spec_standard() == standard_limit && p.spec_vip() == vip_limit
                && p.spec_institutional() == institutional_limit),
    {
        standard_limit.non_zero("standard daily limit")?;
        vip_limit.non_zero("vip daily limit")?;
        institutional_limit.non_zero("institutional daily limit")?;
        if standard_limit.raw() > vip_limit.raw() || vip_limit.raw() > institutional_limit.raw() {
            return Err(
                CrownError::InvalidPolicy(String::from_str("daily limits must be ordered by tier")),
            );
        }
        Ok(DailyLimitPolicy { standard_limit, vip_limit, institutional_limit })
    }

    pub fn for_tier(self, tier: AccountTier) -> (r: Amount)
        ensures
            r == self.spec_for_tier(tier),
            tier is Standard ==> r == self.spec_standard(),
            tier is Vip ==> r == self.spec_vip(),
            tier is Institutional ==> r == self.spec_institutional(),
    {
        match tier {
            AccountTier::Standard => self.standard_limit,
            AccountTier::Vip => self.vip_limit,
            AccountTier::Institutional => self.institutional_limit,
        }
    }

    pub fn standard_limit(self) -> (r: Amount)
        ensures
            r == self.spec_standard(),
    {
        self.standard_limit
    }

    pub fn vip_limit(self) -> (r: Amount)
        ensures
            r == self.spec_vip(),
    {
        self.vip_limit
    }

    pub fn institutional_limit(self) -> (r: Amount)
        ensures
            r == self.spec_institutional(),
    {
        self.institutional_limit
    }
}

/// Parameters of the priority lane.
#[derive(Debug, Clone, Copy, PartialEq, Eq, Structural)]
pub struct PriorityPolicy {
    daily_capacity: Amount,
    per_user_priority_limit: Amount,
    priority_unlock_delay: u64,
    standard_unlock_delay: u64,
    max_queue_depth: usize,
    priority_fee_bps: u32,
}

impl PriorityPolicy {
    pub closed spec fn spec_daily_capacity(self) -> Amount {
        self.daily_capacity
    }

    pub closed spec fn spec_per_user(self) -> Amount {
        self.per_user_priority_limit
    }

    pub closed spec fn spec_priority_delay(self) -> u64 {
        self.priority_unlock_delay
    }

    pub closed spec fn spec_standard_delay(self) -> u64 {
        self.standard_unlock_delay
    }

    pub closed spec fn spec_max_queue_depth(self) -> usize {
        self.max_queue_depth
    }

    pub closed spec fn spec_fee_bps(self) -> u32 {
        self.priority_fee_bps
    }

    /// Checks, in order: non-zero capacity and per-user limit
    /// (`InvalidAmount`), then per-user limit within capacity, priority delay
    /// within standard delay, non-zero queue depth and fee at most 1000 bps
    /// (`InvalidPolicy`).
    pub fn new(
        daily_capacity: Amount,
        per_user_priority_limit: Amount,
        priority_unlock_delay: u64,
        standard_unlock_delay: u64,
        max_queue_depth: usize,
        priority_fee_bps: u32,
    ) -> (r: CrownResult<Self>)
        ensures
            daily_capacity@ == 0 ==> (r matches Err(e) && e is InvalidAmount && e.spec_detail()
                == "daily priority capacity"@ + " must be non-zero"@),
            daily_capacity@ != 0 && per_user_priority_limit@ == 0 ==> (r matches Err(e)
                && e is InvalidAmount && e.spec_detail() == "per user priority limit"@ + " must be non-zero"@),
            daily_capacity@ != 0 && per_user_priority_limit@ != 0 && per_user_priority_limit@
                > daily_capacity@ ==> (r matches Err(e) && e is InvalidPolicy && e.spec_detail()
                == "per user priority limit exceeds daily capacity"@),
            daily_capacity@ != 0 && per_user_priority_limit@ != 0 && per_user_priority_limit@
                <= daily_capacity@ && priority_unlock_delay > standard_unlock_delay ==> (r matches Err(e)
                && e is InvalidPolicy && e.spec_detail()
                == "priority delay must not exceed standard delay"@),
            daily_capacity@ != 0 && per_user_priority_limit@ != 0 && per_user_priority_limit@
                <= daily_capacity@ && priority_unlock_delay <= standard_unlock_delay
                && max_queue_depth == 0 ==> (r matches Err(e) && e is InvalidPolicy
                && e.spec_detail() == "queue depth must be non-zero"@),
            daily_capacity@ != 0 && per_user_priority_limit@ != 0 && per_user_priority_limit@
                <= daily_capacity@ && priority_unlock_delay <= standard_unlock_delay
                && max_queue_depth != 0 && priority_fee_bps > 1000 ==> (r matches Err(e)
                && e is InvalidPolicy && e.spec_detail() == "priority fee exceeds protocol maximum"@),
            daily_capacity@ != 0 && per_user_priority_limit@ != 0 && per_user_priority_limit@
                <= daily_capacity@ && priority_unlock_delay <= standard_unlock_delay
                && max_queue_depth != 0 && priority_fee_bps <= 1000 ==> (r matches Ok(p)
                && p.spec_daily_capacity() == daily_capacity && p.spec_per_user()
                == per_user_priority_limit && p.spec_priority_delay() == priority_unlock_delay
                && p.spec_standard_delay() == standard_unlock_delay && p.spec_max_queue_depth()
                == max_queue_depth && p.spec_fee_bps() == priority_fee_bps),
    {
        daily_capacity.non_zero("daily priority capacity")?;
        per_user_priority_limit.non_zero("per user priority limit")?;
        if per_user_priority_limit.raw() > daily_capacity.raw() {
            return Err(
                CrownError::InvalidPolicy(
                    String::from_str("per user priority limit exceeds daily capacity"),
                ),
            );
        }
        if priority_unlock_delay > standard_unlock_delay {
            return Err(
                CrownError::InvalidPolicy(
                    String::from_str("priority delay must not exceed standard delay"),
                ),
            );
        }
        if max_queue_depth == 0 {
            return Err(CrownError::InvalidPolicy(String::from_str("queue depth must be non-zero")));
        }
        if priority_fee_bps > 1_000 {
            return Err(
                CrownError::InvalidPolicy(String::from_str("priority fee exceeds protocol maximum")),
            );
        }
        Ok(
            PriorityPolicy {
                daily_capacity,
                per_user_priority_limit,
                priority_unlock_delay,
                standard_unlock_delay,
                max_queue_depth,
                priority_fee_bps,
            },
        )
    }

    pub fn daily_capacity(self) -> (r: Amount)
        ensures
            r == self.spec_daily_capacity(),
    {
        self.daily_capacity
    }

    pub fn per_user_priority_limit(self) -> (r: Amount)
        ensures
            r == self.spec_per_user(),
    {
        self.per_user_priority_limit
    }

    pub fn priority_unlock_delay(self) -> (r: u64)
        ensures
            r == self.spec_priority_delay(),
    {
        self.priority_unlock_delay
    }

    pub fn standard_unlock_delay(self) -> (r: u64)
        ensures
            r == self.spec_standard_delay(),
    {
        self.standard_unlock_delay
    }

    pub fn max_queue_depth(self) -> (r: usize)
        ensures
            r == self.spec_max_queue_depth(),
    {
        self.max_queue_depth
    }

    pub fn priority_fee_bps(self) -> (r: u32)
        ensures
            r == self.spec_fee_bps(),
    {
        self.priority_fee_bps
    }
}

/// The full redemption policy of a vault.
#[derive(Debug, Clone, Copy, PartialEq, Eq, Structural)]
pub struct RedemptionPolicy {
    daily_limits: DailyLimitPolicy,
    priority: PriorityPolicy,
    minimum_ticket: Amount,
    max_ticket: Amount,
}

impl RedemptionPolicy {
    pub closed spec fn spec_daily_limits(self) -> DailyLimitPolicy {
        self.daily_limits
    }

    pub closed spec fn spec_priority(self) -> PriorityPolicy {
        self.priority
    }

    pub closed spec fn spec_minimum_ticket(self) -> Amount {
        self.minimum_ticket
    }

    pub closed spec fn spec_max_ticket(self) -> Amount {
        self.max_ticket
    }

    /// Fails with `InvalidAmount` for a zero minimum, then with
    /// `InvalidPolicy` when the maximum is below the minimum.
    pub fn new(
        daily_limits: DailyLimitPolicy,
        priority: PriorityPolicy,
        minimum_ticket: Amount,
        max_ticket: Amount,
    ) -> (r: CrownResult<Self>)
        ensures
            minimum_ticket@ == 0 ==> (r matches Err(e) && e is InvalidAmount && e.spec_detail()
                == "minimum ticket"@ + " must be non-zero"@),
            minimum_ticket@ != 0 && max_ticket@ < minimum_ticket@ ==> (r matches Err(e)
                && e is InvalidPolicy && e.spec_detail() == "max ticket below minimum"@),
            minimum_ticket@ != 0 && max_ticket@ >= minimum_ticket@ ==> (r matches Ok(p)
                && p.spec_daily_limits() == daily_limits && p.spec_priority() == priority
                && p.spec_minimum_ticket() == minimum_ticket && p.spec_max_ticket() == max_ticket),
    {
        minimum_ticket.non_zero("minimum ticket")?;
        if max_ticket.raw() < minimum_ticket.raw() {
            return Err(CrownError::InvalidPolicy(String::from_str("max ticket below minimum")));
        }
        Ok(RedemptionPolicy { daily_limits, priority, minimum_ticket, max_ticket })
    }

    pub fn daily_limits(self) -> (r: DailyLimitPolicy)
        ensures
            r == self.spec_daily_limits(),
    {
        self.daily_limits
    }

    pub fn priority(self) -> (r: PriorityPolicy)
        ensures
            r == self.spec_priority(),
    {
        self.priority
    }

    pub fn minimum_ticket(self) -> (r: Amount)
        ensures
            r == self.spec_minimum_ticket(),
    {
        self.minimum_ticket
    }

    pub fn max_ticket(self) -> (r: Amount)
        ensures
            r == self.spec_max_ticket(),
    {
        self.max_ticket
    }

    /// A redemption amount is valid when it is non-zero and within the
    /// ticket bounds.
    pub open spec fn spec_valid_amount(self, amount: Amount) -> bool {
        amount@ != 0 && self.spec_minimum_ticket()@ <= amount@ <= self.spec_max_ticket()@
    }

    /// Fails with `InvalidAmount` for a zero amount, one below the minimum
    /// ticket or one above the maximum ticket.
    /// Why `amount` is not a valid redemption amount.
    pub open spec fn amount_refusal(self, amount: Amount) -> Seq<char> {
        if amount@ == 0 {
            "redemption amount"@ + " must be non-zero"@
        } else if amount@ < self.spec_minimum_ticket()@ {
            "amount "@ + decimal(amount@) + " below minimum "@ + decimal(self.spec_minimum_ticket()@)
        } else {
            "amount "@ + decimal(amount@) + " above maximum "@ + decimal(self.spec_max_ticket()@)
        }
    }

    pub fn validate_amount(self, amount: Amount) -> (r: CrownResult<()>)
        ensures
            self.spec_valid_amount(amount) <==> r is Ok,
            r matches Err(e) ==> e is InvalidAmount && e.spec_detail() == self.amount_refusal(amount),
    {
        amount.non_zero("redemption amount")?;
        if amount.raw() < self.minimum_ticket.raw() {
            let msg = String::from_str("amount ").concat(amount.to_text().as_str()).concat(
                " below minimum ",
            ).concat(self.minimum_ticket.to_text().as_str());
            return Err(CrownError::InvalidAmount(msg));
        }
        if amount.raw() > self.max_ticket.raw() {
            let msg = String::from_str("amount ").concat(amount.to_text().as_str()).concat(
                " above maximum ",
            ).concat(self.max_ticket.to_text().as_str());
            return Err(CrownError::InvalidAmount(msg));
        }
        Ok(())
    }
}

/// Requested, released and completed redemption volume of one account, vault
/// and day.
#[derive(Debug, Clone, Copy, PartialEq, Eq, Structural)]
pub struct LimitBucket {
    requested: Amount,
    released: Amount,
    completed: Amount,
}

impl LimitBucket {
    pub closed spec fn spec_requested(self) -> nat {
        self.requested@
    }

    pub closed spec fn spec_released(self) -> nat {
        self.released@
    }

    pub closed spec fn spec_completed(self) -> nat {
        self.completed@
    }

    /// Volume still counted against the limit.
    pub open spec fn spec_active(self) -> int {
        self.spec_requested() - self.spec_released()
    }

    pub open spec fn is_empty_bucket(self) -> bool {
        self.spec_requested() == 0 && self.spec_released() == 0 && self.spec_completed() == 0
    }

    pub fn requested(self) -> (r: Amount)
        ensures
            r@ == self.spec_requested(),
    {
        self.requested
    }

    pub fn released(self) -> (r: Amount)
        ensures
            r@ == self.spec_released(),
    {
        self.released
    }

    pub fn completed(self) -> (r: Amount)
        ensures
            r@ == self.spec_completed(),
    {
        self.completed
    }

    /// Requested minus released; fails with `Arithmetic` if more was released
    /// than requested.
    pub fn active(self) -> (r: CrownResult<Amount>)
        ensures
            self.spec_active() >= 0 ==> (r matches Ok(a) && a@ == self.spec_active()),
            self.spec_active() < 0 ==> (r matches Err(e) && e is Arithmetic && e.spec_detail()
                == "amount subtraction underflow"@),
    {
        self.requested.checked_sub(self.released)
    }

    pub fn consume(&mut self, amount: Amount) -> (r: CrownResult<()>)
        ensures
            old(self).spec_requested() + amount@ <= amount_max() ==> (r is Ok
                && final(self).spec_requested() == old(self).spec_requested() + amount@
                && final(self).spec_released() == old(self).spec_released()
                && final(self).spec_completed() == old(self).spec_completed()),
            old(self).spec_requested() + amount@ > amount_max() ==> (r matches Err(e)
                && e is Arithmetic && e.spec_detail() == "amount addition overflow"@ && *final(self) == *old(self)),
    {
        self.requested = self.requested.checked_add(amount)?;
        Ok(())
    }

    /// Returns volume to the limit; fails with `Invariant` when more than the
    /// active volume would be released.
    pub fn release(&mut self, amount: Amount) -> (r: CrownResult<()>)
        ensures
            old(self).spec_active() < 0 ==> (r matches Err(e) && e is Arithmetic
                && e.spec_detail() == "amount subtraction underflow"@ && *final(self) == *old(self)),
            0 <= old(self).spec_active() < amount@ ==> (r matches Err(e) && e is Invariant
                && e.spec_detail() == "limit release "@ + decimal(amount@) + " exceeds active "@ + decimal(
                old(self).spec_active() as nat) && *final(self) == *old(self)),
            0 <= old(self).spec_active() && amount@ <= old(self).spec_active() ==> (r is Ok
                && final(self).spec_released() == old(self).spec_released() + amount@
                && final(self).spec_requested() == old(self).spec_requested()
                && final(self).spec_completed() == old(self).spec_completed()),
    {
        let active = self.active()?;
        if active.raw() < amount.raw() {
            let msg = String::from_str("limit release ").concat(amount.to_text().as_str()).concat(
                " exceeds active ",
            ).concat(active.to_text().as_str());
            return Err(CrownError::Invariant(msg));
        }
        self.released = self.released.checked_add(amount)?;
        Ok(())
    }

    pub fn complete(&mut self, amount: Amount) -> (r: CrownResult<()>)
        ensures
            old(self).spec_completed() + amount@ <= amount_max() ==> (r is Ok
                && final(self).spec_completed() == old(self).spec_completed() + amount@
                && final(self).spec_released() == old(self).spec_released()
                && final(self).spec_requested() == old(self).spec_requested()),
            old(self).spec_completed() + amount@ > amount_max() ==> (r matches Err(e)
                && e is Arithmetic && e.spec_detail() == "amount addition overflow"@ && *final(self) == *old(self)),
    {
        self.completed = self.completed.checked_add(amount)?;
        Ok(())
    }

    fn empty() -> (r: Self)
        ensures
            r.is_empty_bucket(),
            r == (LimitBucket { requested: Amount::spec_new(0), released: Amount::spec_new(0), completed: Amount::spec_new(0) }),
    {
        LimitBucket { requested: Amount::new(0), released: Amount::new(0), completed: Amount::new(0) }
    }
}

impl Default for LimitBucket {
    fn default() -> (r: Self)
        ensures
            r.is_empty_bucket(),
    {
        LimitBucket::empty()
    }
}

/// Daily limit usage for every account, vault and day, keyed by the numbers
/// of the account, the vault and the day.
#[derive(Debug, Clone)]
pub struct LimitLedger {
    buckets: BTreeMap<(u64, u64, u64), LimitBucket>,
}

impl LimitLedger {
    pub closed spec fn wf(&self) -> bool {
        forall|k: (u64, u64, u64)| #[trigger] self.buckets@.contains_key(k)
            ==> self.buckets@[k].spec_released() <= self.buckets@[k].spec_requested()
    }

    /// Never more volume is released than was requested.
    pub proof fn lemma_active_nonnegative(&self, account: AccountId, vault: VaultId, day: EpochDay)
        requires
            self.wf(),
        ensures
            self.spec_bucket(account, vault, day).spec_active() >= 0,
    {
        assert(self.buckets@.contains_key((account@, vault@, day@)) ==> self.buckets@[(account@, vault@, day@)].spec_released()
            <= self.buckets@[(account@, vault@, day@)].spec_requested());
    }

    /// The usage of one account in one vault on one day (empty when never
    /// touched).
    pub closed spec fn spec_bucket(&self, account: AccountId, vault: VaultId, day: EpochDay) -> LimitBucket {
        let k = (account@, vault@, day@);
        if self.buckets@.contains_key(k) {
            self.buckets@[k]
        } else {
            LimitBucket { requested: Amount::spec_new(0), released: Amount::spec_new(0), completed: Amount::spec_new(0) }
        }
    }

    /// The buckets of `self` and `other` agree except on one key.
    pub open spec fn same_except(&self, other: &Self, account: AccountId, vault: VaultId, day: EpochDay) -> bool {
        forall|a: AccountId, v: VaultId, d: EpochDay|
            !(a == account && v == vault && d == day) ==> #[trigger] self.spec_bucket(a, v, d)
                == other.spec_bucket(a, v, d)
    }

    pub fn new() -> (r: Self)
        ensures
            r.wf(),
            forall|a: AccountId, v: VaultId, d: EpochDay| (#[trigger] r.spec_bucket(a, v, d)).is_empty_bucket(),
    {
        LimitLedger { buckets: BTreeMap::new() }
    }

    /// Stores `b` as the bucket of one account, vault and day.
    fn store(&mut self, account: AccountId, vault: VaultId, day: EpochDay, b: LimitBucket)
        requires
            old(self).wf(),
            b.spec_released() <= b.spec_requested(),
        ensures
            final(self).wf(),
            final(self).spec_bucket(account, vault, day) == b,
            final(self).same_except(old(self), account, vault, day),
    {
        self.buckets.insert((account.raw(), vault.raw(), day.raw()), b);
        proof {
            assert forall|a: AccountId, v: VaultId, d: EpochDay|
                !(a == account && v == vault && d == day) implies #[trigger] self.spec_bucket(a, v, d)
                    == old(self).spec_bucket(a, v, d) by {
                AccountId::lemma_view(a, account, 0);
                VaultId::lemma_view(v, vault, 0);
                EpochDay::lemma_view(d, day, 0);
            }
        }
    }

    pub fn bucket(&self, account: AccountId, vault: VaultId, day: EpochDay) -> (r: LimitBucket)
        requires
            self.wf(),
        ensures
            r == self.spec_bucket(account, vault, day),
    {
        match self.buckets.get(&(account.raw(), vault.raw(), day.raw())) {
            Some(b) => *b,
            None => LimitBucket::empty(),
        }
    }

    pub fn active_for(&self, account: AccountId, vault: VaultId, day: EpochDay) -> (r: CrownResult<Amount>)
        requires
            self.wf(),
        ensures
            self.spec_bucket(account, vault, day).spec_active() >= 0 ==> (r matches Ok(a) && a@
                == self.spec_bucket(account, vault, day).spec_active()),
            self.spec_bucket(account, vault, day).spec_active() < 0 ==> (r matches Err(e)
                && e is Arithmetic && e.spec_detail() == "amount subtraction underflow"@),
    {
        self.bucket(account, vault, day).active()
    }

    /// Counts `amount` against the tier's daily limit; fails with
    /// `LimitExceeded` when the active volume would pass the limit.
    pub fn consume(
        &mut self,
        account: AccountId,
        vault: VaultId,
        tier: AccountTier,
        day: EpochDay,
        amount: Amount,
        policy: DailyLimitPolicy,
    ) -> (r: CrownResult<()>)
        requires
            old(self).wf(),
        ensures
            final(self).wf(),
            final(self).same_except(old(self), account, vault, day),
            ({
                let b = old(self).spec_bucket(account, vault, day);
                let nb = final(self).spec_bucket(account, vault, day);
                &&& b.spec_active() < 0 ==> (r matches Err(e) && e is Arithmetic && e.spec_detail() == "amount subtraction underflow"@ && nb == b)
                &&& b.spec_active() >= 0 && b.spec_active() + amount@ > amount_max() ==> (r matches Err(e)
                    && e is Arithmetic && e.spec_detail() == "amount addition overflow"@ && nb == b)
                &&& b.spec_active() >= 0 && b.spec_active() + amount@ <= amount_max() && b.spec_active()
                    + amount@ > policy.spec_for_tier(tier)@ ==> (r matches Err(e) && e is LimitExceeded
                    && e.spec_detail() == "daily limit "@ + decimal(policy.spec_for_tier(tier)@)
                    + " exceeded by projected "@ + decimal((b.spec_active() + amount@) as nat) && nb == b)
                &&& b.spec_active() >= 0 && b.spec_active() + amount@ <= policy.spec_for_tier(tier)@
                    && b.spec_requested() + amount@ > amount_max() ==> (r matches Err(e)
                    && e is Arithmetic && e.spec_detail() == "amount addition overflow"@ && nb == b)
                &&& b.spec_active() >= 0 && b.spec_active() + amount@ <= policy.spec_for_tier(tier)@
                    && b.spec_requested() + amount@ <= amount_max() ==> (
                r is Ok && nb.spec_requested() == b.spec_requested() + amount@ && nb.spec_released()
                    == b.spec_released() && nb.spec_completed() == b.spec_completed())
            }),
    {
        let current = self.bucket(account, vault, day).active()?;
        let limit = policy.for_tier(tier);
        let next = current.checked_add(amount)?;
        if next.raw() > limit.raw() {
            let msg = String::from_str("daily limit ").concat(limit.to_text().as_str()).concat(
                " exceeded by projected ",
            ).concat(next.to_text().as_str());
            return Err(CrownError::LimitExceeded(msg));
        }
        let mut b = self.bucket(account, vault, day);
        b.consume(amount)?;
        self.store(account, vault, day, b);
        Ok(())
    }

    /// Returns volume to the daily limit.
    pub fn release(&mut self, account: AccountId, vault: VaultId, day: EpochDay, amount: Amount) -> (r:
        CrownResult<()>)
        requires
            old(self).wf(),
        ensures
            final(self).wf(),
            final(self).same_except(old(self), account, vault, day),
            ({
                let b = old(self).spec_bucket(account, vault, day);
                let nb = final(self).spec_bucket(account, vault, day);
                &&& b.spec_active() < 0 ==> (r matches Err(e) && e is Arithmetic && e.spec_detail() == "amount subtraction underflow"@ && nb == b)
                &&& 0 <= b.spec_active() < amount@ ==> (r matches Err(e) && e is Invariant
                    && e.spec_detail() == "limit release "@ + decimal(amount@) + " exceeds active "@ + decimal(
                    b.spec_active() as nat) && nb == b)
                &&& 0 <= b.spec_active() && amount@ <= b.spec_active() ==> (r is Ok
                    && nb.spec_released() == b.spec_released() + amount@ && nb.spec_requested()
                    == b.spec_requested() && nb.spec_completed() == b.spec_completed())
            }),
    {
        let mut b = self.bucket(account, vault, day);
        b.release(amount)?;
        self.store(account, vault, day, b);
        Ok(())
    }

    /// Records completed volume.
    pub fn complete(&mut self, account: AccountId, vault: VaultId, day: EpochDay, amount: Amount) -> (r:
        CrownResult<()>)
        requires
            old(self).wf(),
        ensures
            final(self).wf(),
            final(self).same_except(old(self), account, vault, day),
            ({
                let b = old(self).spec_bucket(account, vault, day);
                let nb = final(self).spec_bucket(account, vault, day);
                &&& b.spec_completed() + amount@ > amount_max() ==> (r matches Err(e)
                    && e is Arithmetic && e.spec_detail() == "amount addition overflow"@ && nb == b)
                &&& b.spec_completed() + amount@ <= amount_max() ==> (r is Ok
                    && nb.spec_completed() == b.spec_completed() + amount@ && nb.spec_requested()
                    == b.spec_requested() && nb.spec_released() == b.spec_released())
            }),
    {
        let mut b = self.bucket(account, vault, day);
        b.complete(amount)?;
        self.store(account, vault, day, b);
        Ok(())
    }
}

impl Default for LimitLedger {
    fn default() -> (r: Self)
        ensures
            r.wf(),
            forall|a: AccountId, v: VaultId, d: EpochDay| (#[trigger] r.spec_bucket(a, v, d)).is_empty_bucket(),
    {
        LimitLedger::new()
    }
}

/// Priority capacity used and returned for one vault and day.
#[derive(Debug, Clone, Copy, PartialEq, Eq, Structural)]
pub struct CapacityBucket {
    consumed: Amount,
    released: Amount,
}

impl CapacityBucket {
    pub closed spec fn spec_consumed(self) -> nat {
        self.consumed@
    }

    pub closed spec fn spec_released(self) -> nat {
        self.released@
    }

    pub open spec fn spec_net(self) -> int {
        self.spec_consumed() - self.spec_released()
    }

    pub fn consumed(self) -> (r: Amount)
        ensures
            r@ == self.spec_consumed(),
    {
        self.consumed
    }

    pub fn released(self) -> (r: Amount)
        ensures
            r@ == self.spec_released(),
    {
        self.released
    }

    /// Consumed minus released.
    pub fn net(self) -> (r: CrownResult<Amount>)
        ensures
            self.spec_net() >= 0 ==> (r matches Ok(a) && a@ == self.spec_net()),
            self.spec_net() < 0 ==> (r matches Err(e) && e is Arithmetic
                && e.spec_detail() == "amount subtraction underflow"@),
    {
        self.consumed.checked_sub(self.released)
    }

    /// Capacity left out of `capacity`.
    pub fn available(self, capacity: Amount) -> (r: CrownResult<Amount>)
        ensures
            0 <= self.spec_net() <= capacity@ ==> (r matches Ok(a) && a@ == capacity@ - self.spec_net()),
            !(0 <= self.spec_net() <= capacity@) ==> (r matches Err(e) && e is Arithmetic
                && e.spec_detail() == "amount subtraction underflow"@),
    {
        let net = self.net()?;
        capacity.checked_sub(net)
    }

    fn empty() -> (r: Self)
        ensures
            r.spec_consumed() == 0,
            r.spec_released() == 0,
            r == (CapacityBucket { consumed: Amount::spec_new(0), released: Amount::spec_new(0) }),
    {
        CapacityBucket { consumed: Amount::new(0), released: Amount::new(0) }
    }
}

impl Default for CapacityBucket {
    fn default() -> (r: Self)
        ensures
            r.spec_consumed() == 0,
            r.spec_released() == 0,
    {
        CapacityBucket::empty()
    }
}

/// Priority capacity usage for every vault and day, keyed by the numbers of
/// the vault and the day.
#[derive(Debug, Clone)]
pub struct CapacityLedger {
    buckets: BTreeMap<(u64, u64), CapacityBucket>,
}

impl CapacityLedger {
    pub closed spec fn wf(&self) -> bool {
        forall|k: (u64, u64)| #[trigger] self.buckets@.contains_key(k)
            ==> self.buckets@[k].spec_released() <= self.buckets@[k].spec_consumed()
    }

    /// Never more capacity is returned than was used.
    pub proof fn lemma_net_nonnegative(&self, vault: VaultId, day: EpochDay)
        requires
            self.wf(),
        ensures
            self.spec_bucket(vault, day).spec_net() >= 0,
    {
        assert(self.buckets@.contains_key((vault@, day@)) ==> self.buckets@[(vault@, day@)].spec_released()
            <= self.buckets@[(vault@, day@)].spec_consumed());
    }

    pub closed spec fn spec_bucket(&self, vault: VaultId, day: EpochDay) -> CapacityBucket {
        let k = (vault@, day@);
        if self.buckets@.contains_key(k) {
            self.buckets@[k]
        } else {
            CapacityBucket { consumed: Amount::spec_new(0), released: Amount::spec_new(0) }
        }
    }

    pub open spec fn same_except(&self, other: &Self, vault: VaultId, day: EpochDay) -> bool {
        forall|v: VaultId, d: EpochDay|
            !(v == vault && d == day) ==> #[trigger] self.spec_bucket(v, d) == other.spec_bucket(v, d)
    }

    pub fn new() -> (r: Self)
        ensures
            r.wf(),
            forall|v: VaultId, d: EpochDay| (#[trigger] r.spec_bucket(v, d)).spec_consumed() == 0
                && r.spec_bucket(v, d).spec_released() == 0,
    {
        CapacityLedger { buckets: BTreeMap::new() }
    }

    /// Stores `b` as the bucket of one vault and day.
    fn store(&mut self, vault: VaultId, day: EpochDay, b: CapacityBucket)
        requires
            old(self).wf(),
            b.spec_released() <= b.spec_consumed(),
        ensures
            final(self).wf(),
            final(self).spec_bucket(vault, day) == b,
            final(self).same_except(old(self), vault, day),
    {
        self.buckets.insert((vault.raw(), day.raw()), b);
        proof {
            assert forall|v: VaultId, d: EpochDay| !(v == vault && d == day) implies #[trigger] self.spec_bucket(v, d)
                == old(self).spec_bucket(v, d) by {
                VaultId::lemma_view(v, vault, 0);
                EpochDay::lemma_view(d, day, 0);
            }
        }
    }

    /// Uses `amount` of the day's priority capacity; fails with
    /// `QueueCapacity` when less is available.
    pub fn consume(&mut self, vault: VaultId, day: EpochDay, amount: Amount, policy: PriorityPolicy) -> (r:
        CrownResult<()>)
        requires
            old(self).wf(),
        ensures
            final(self).wf(),
            final(self).same_except(old(self), vault, day),
            ({
                let b = old(self).spec_bucket(vault, day);
                let nb = final(self).spec_bucket(vault, day);
                let cap = policy.spec_daily_capacity()@;
                &&& !(0 <= b.spec_net() <= cap) ==> (r matches Err(e) && e is Arithmetic && e.spec_detail() == "amount subtraction underflow"@ && nb == b)
                &&& 0 <= b.spec_net() <= cap && cap - b.spec_net() < amount@ ==> (r matches Err(e)
                    && e is QueueCapacity && e.spec_detail() == "priority capacity "@ + decimal((cap - b.spec_net()) as nat)
                    + " below request "@ + decimal(amount@) && nb == b)
                &&& 0 <= b.spec_net() <= cap && amount@ <= cap - b.spec_net() && b.spec_consumed()
                    + amount@ > amount_max() ==> (r matches Err(e) && e is Arithmetic && e.spec_detail() == "amount addition overflow"@ && nb == b)
                &&& 0 <= b.spec_net() <= cap && amount@ <= cap - b.spec_net() && b.spec_consumed()
                    + amount@ <= amount_max() ==> (r is Ok
                    && nb.spec_consumed() == b.spec_consumed() + amount@ && nb.spec_released()
                    == b.spec_released())
            }),
    {
        let mut b = self.bucket(vault, day);
        let available = b.available(policy.daily_capacity())?;
        if available.raw() < amount.raw() {
            let msg = String::from_str("priority capacity ").concat(available.to_text().as_str()).concat(
                " below request ",
            ).concat(amount.to_text().as_str());
            return Err(CrownError::QueueCapacity(msg));
        }
        b.consumed = b.consumed.checked_add(amount)?;
        self.store(vault, day, b);
        Ok(())
    }

    /// Returns `amount` of the day's priority capacity; fails with
    /// `Invariant` when more than the net usage would be returned.
    pub fn release(&mut self, vault: VaultId, day: EpochDay, amount: Amount) -> (r: CrownResult<()>)
        requires
            old(self).wf(),
        ensures
            final(self).wf(),
            final(self).same_except(old(self), vault, day),
            ({
                let b = old(self).spec_bucket(vault, day);
                let nb = final(self).spec_bucket(vault, day);
                &&& b.spec_net() < 0 ==> (r matches Err(e) && e is Arithmetic && e.spec_detail() == "amount subtraction underflow"@ && nb == b)
                &&& 0 <= b.spec_net() < amount@ ==> (r matches Err(e) && e is Invariant
                    && e.spec_detail() == "capacity release "@ + decimal(amount@) + " exceeds net "@ + decimal(
                    b.spec_net() as nat) && nb == b)
                &&& 0 <= b.spec_net() && amount@ <= b.spec_net() ==> (r is Ok && nb.spec_released()
                    == b.spec_released() + amount@ && nb.spec_consumed() == b.spec_consumed())
            }),
    {
        let mut b = self.bucket(vault, day);
        let net = b.net()?;
        if net.raw() < amount.raw() {
            let msg = String::from_str("capacity release ").concat(amount.to_text().as_str()).concat(
                " exceeds net ",
            ).concat(net.to_text().as_str());
            return Err(CrownError::Invariant(msg));
        }
        b.released = b.released.checked_add(amount)?;
        self.store(vault, day, b);
        Ok(())
    }

    pub fn bucket(&self, vault: VaultId, day: EpochDay) -> (r: CapacityBucket)
        requires
            self.wf(),
        ensures
            r == self.spec_bucket(vault, day),
    {
        match self.buckets.get(&(vault.raw(), day.raw())) {
            Some(b) => *b,
            None => CapacityBucket::empty(),
        }
    }

    /// Priority capacity still available on the day.
    pub fn available(&self, vault: VaultId, day: EpochDay, policy: PriorityPolicy) -> (r: CrownResult<Amount>)
        requires
            self.wf(),
        ensures
            ({
                let b = self.spec_bucket(vault, day);
                let cap = policy.spec_daily_capacity()@;
                &&& 0 <= b.spec_net() <= cap ==> (r matches Ok(a) && a@ == cap - b.spec_net())
                &&& !(0 <= b.spec_net() <= cap) ==> (r matches Err(e) && e is Arithmetic
                    && e.spec_detail() == "amount subtraction underflow"@)
            }),
    {
        self.bucket(vault, day).available(policy.daily_capacity())
    }
}

impl Default for CapacityLedger {
    fn default() -> (r: Self)
        ensures
            r.wf(),
    {
        CapacityLedger::new()
    }
}

} // verus!
