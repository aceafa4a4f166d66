use vstd::prelude::*;
use crate::error::{CrownError, CrownResult};
use crate::ids::WindowId;

verus! {

/// A day number on the protocol's calendar.
#[derive(Debug, Clone, Copy, PartialEq, Eq, Structural, PartialOrd, Ord, Hash)]
pub struct EpochDay(u64);

impl View for EpochDay {
    type V = u64;

    closed spec fn view(&self) -> u64 {
        self.0
    }
}

impl EpochDay {
    pub closed spec fn spec_new(value: u64) -> Self {
        EpochDay(value)
    }

    /// A day is determined by its number.
    pub proof fn lemma_view(a: Self, b: Self, v: u64)
        ensures
            a@ == b@ ==> a == b,
            #[trigger] Self::spec_new(v)@ == v,
    {
    }

    pub fn new(value: u64) -> (r: Self)
        ensures
            r@ == value,
            r == Self::spec_new(value),
    {
        EpochDay(value)
    }

    pub fn raw(self) -> (r: u64)
        ensures
            r == self@,
    {
        self.0
    }

    pub fn next(self) -> (r: Self)
        requires
            self@ < u64::MAX,
        ensures
            r@ == self@ + 1,
    {
        EpochDay(self.0 + 1)
    }

    pub fn checked_add(self, days: u64) -> (r: CrownResult<Self>)
        ensures
            self@ + days <= u64::MAX ==> (r matches Ok(d) && d@ == self@ + days),
            self@ + days > u64::MAX ==> (r matches Err(e) && e is Arithmetic && e.spec_detail()
                == "epoch day overflow"@),
    {
        match self.0.checked_add(days) {
            Some(v) => Ok(EpochDay(v)),
            None => Err(CrownError::arithmetic("epoch day overflow")),
        }
    }
}

impl Default for EpochDay {
    fn default() -> (r: Self)
        ensures
            r@ == 0,
    {
        EpochDay(0)
    }
}

#[derive(Debug, Clone, Copy, PartialEq, Eq, Structural)]
pub enum WindowKind {
    Priority,
    Standard,
    Maintenance,
}

/// The days on which a window accepts requests, and how long its requests
/// stay locked.
#[derive(Debug, Clone, Copy, PartialEq, Eq, Structural)]
pub struct WindowSpec {
    kind: WindowKind,
    open_day: EpochDay,
    close_day: EpochDay,
    unlock_delay_days: u64,
    capacity_epoch: EpochDay,
}

impl WindowSpec {
    pub closed spec fn spec_kind(self) -> WindowKind {
        self.kind
    }

    pub closed spec fn spec_open_day(self) -> EpochDay {
        self.open_day
    }

    pub closed spec fn spec_close_day(self) -> EpochDay {
        self.close_day
    }

    pub closed spec fn spec_unlock_delay(self) -> u64 {
        self.unlock_delay_days
    }

    pub closed spec fn spec_capacity_epoch(self) -> EpochDay {
        self.capacity_epoch
    }

    /// A window never closes before it opens.
    pub open spec fn wf(self) -> bool {
        self.spec_open_day()@ <= self.spec_close_day()@
    }

    /// Fails with `InvalidPolicy` exactly when the window would close before
    /// it opens.
    pub fn new(
        kind: WindowKind,
        open_day: EpochDay,
        close_day: EpochDay,
        unlock_delay_days: u64,
        capacity_epoch: EpochDay,
    ) -> (r: CrownResult<Self>)
        ensures
            close_day@ < open_day@ ==> (r matches Err(e) && e is InvalidPolicy && e.spec_detail()
                == "window closes before it opens"@),
            close_day@ >= open_day@ ==> (r matches Ok(w) && w.wf() && w.spec_kind() == kind
                && w.spec_open_day() == open_day && w.spec_close_day() == close_day
                && w.spec_unlock_delay() == unlock_delay_days && w.spec_capacity_epoch()
                == capacity_epoch),
    {
        if close_day.raw() < open_day.raw() {
            return Err(CrownError::InvalidPolicy(String::from_str("window closes before it opens")));
        }
        Ok(WindowSpec { kind, open_day, close_day, unlock_delay_days, capacity_epoch })
    }

    pub fn priority(open_day: EpochDay, close_day: EpochDay, delay: u64) -> (r: CrownResult<Self>)
        ensures
            close_day@ < open_day@ ==> (r matches Err(e) && e is InvalidPolicy && e.spec_detail()
                == "window closes before it opens"@),
            close_day@ >= open_day@ ==> (r matches Ok(w) && w.wf() && w.spec_kind()
                == WindowKind::Priority && w.spec_open_day() == open_day && w.spec_close_day()
                == close_day && w.spec_unlock_delay() == delay && w.spec_capacity_epoch()
                == open_day),
    {
        Self::new(WindowKind::Priority, open_day, close_day, delay, open_day)
    }

    pub fn standard(open_day: EpochDay, close_day: EpochDay, delay: u64) -> (r: CrownResult<Self>)
        ensures
            close_day@ < open_day@ ==> (r matches Err(e) && e is InvalidPolicy && e.spec_detail()
                == "window closes before it opens"@),
            close_day@ >= open_day@ ==> (r matches Ok(w) && w.wf() && w.spec_kind()
                == WindowKind::Standard && w.spec_open_day() == open_day && w.spec_close_day()
                == close_day && w.spec_unlock_delay() == delay && w.spec_capacity_epoch()
                == open_day),
    {
        Self::new(WindowKind::Standard, open_day, close_day, delay, open_day)
    }

    pub fn kind(self) -> (r: WindowKind)
        ensures
            r == self.spec_kind(),
    {
        self.kind
    }

    pub fn open_day(self) -> (r: EpochDay)
        ensures
            r == self.spec_open_day(),
    {
        self.open_day
    }

    pub fn close_day(self) -> (r: EpochDay)
        ensures
            r == self.spec_close_day(),
    {
        self.close_day
    }

    /// The day on which a request made on `requested_on` unlocks.
    pub fn unlock_day(self, requested_on: EpochDay) -> (r: CrownResult<EpochDay>)
        ensures
            requested_on@ + self.spec_unlock_delay() <= u64::MAX ==> (r matches Ok(d) && d@
                == requested_on@ + self.spec_unlock_delay()),
            requested_on@ + self.spec_unlock_delay() > u64::MAX ==> (r matches Err(e)
                && e is Arithmetic && e.spec_detail() == "epoch day overflow"@),
    {
        requested_on.checked_add(self.unlock_delay_days)
    }

    pub fn capacity_epoch(self) -> (r: EpochDay)
        ensures
            r == self.spec_capacity_epoch(),
    {
        self.capacity_epoch
    }

    /// Whether `day` lies within the window, both ends included.
    pub open spec fn spec_contains(self, day: EpochDay) -> bool {
        self.spec_open_day()@ <= day@ <= self.spec_close_day()@
    }

    pub fn contains(self, day: EpochDay) -> (r: bool)
        ensures
            r == self.spec_contains(day),
    {
        day.raw() >= self.open_day.raw() && day.raw() <= self.close_day.raw()
    }
}

/// A configured window of a vault.
#[derive(Debug, Clone, Copy, PartialEq, Eq, Structural)]
pub struct UnlockWindow {
    id: WindowId,
    spec: WindowSpec,
}

impl UnlockWindow {
    pub closed spec fn spec_id(self) -> WindowId {
        self.id
    }

    pub closed spec fn spec_spec(self) -> WindowSpec {
        self.spec
    }

    pub fn new(id: WindowId, spec: WindowSpec) -> (r: Self)
        ensures
            r.spec_id() == id,
            r.spec_spec() == spec,
    {
        UnlockWindow { id, spec }
    }

    pub fn id(self) -> (r: WindowId)
        ensures
            r == self.spec_id(),
    {
        self.id
    }

    pub fn spec(self) -> (r: WindowSpec)
        ensures
            r == self.spec_spec(),
    {
        self.spec
    }

    pub fn kind(self) -> (r: WindowKind)
        ensures
            r == self.spec_spec().spec_kind(),
    {
        self.spec.kind()
    }

    pub fn accepts(self, day: EpochDay) -> (r: bool)
        ensures
            r == self.spec_spec().spec_contains(day),
    {
        self.spec.contains(day)
    }

    pub fn unlock_day(self, requested_on: EpochDay) -> (r: CrownResult<EpochDay>)
        ensures
            requested_on@ + self.spec_spec().spec_unlock_delay() <= u64::MAX ==> (r matches Ok(d)
                && d@ == requested_on@ + self.spec_spec().spec_unlock_delay()),
            requested_on@ + self.spec_spec().spec_unlock_delay() > u64::MAX ==> (r matches Err(e)
                && e is Arithmetic && e.spec_detail() == "epoch day overflow"@),
    {
        self.spec.unlock_day(requested_on)
    }
}

/// The protocol's current day.
#[derive(Debug, Clone)]
pub struct Clock {
    day: EpochDay,
}

impl Clock {
    pub closed spec fn spec_day(&self) -> EpochDay {
        self.day
    }

    pub fn new(day: EpochDay) -> (r: Self)
        ensures
            r.spec_day() == day,
    {
        Clock { day }
    }

    pub fn day(&self) -> (r: EpochDay)
        ensures
            r == self.spec_day(),
    {
        self.day
    }

    /// Moves the clock forward; on overflow the clock is left unchanged.
    pub fn advance_days(&mut self, days: u64) -> (r: CrownResult<EpochDay>)
        ensures
            old(self).spec_day()@ + days <= u64::MAX ==> (r matches Ok(d) && d@ == old(
                self,
            ).spec_day()@ + days && final(self).spec_day() == d),
            old(self).spec_day()@ + days > u64::MAX ==> (r matches Err(e) && e is Arithmetic
                && e.spec_detail() == "epoch day overflow"@ && final(self).spec_day() == old(self).spec_day()),
    {
        let next = self.day.checked_add(days)?;
        self.day = next;
        Ok(self.day)
    }

    pub fn set_day(&mut self, day: EpochDay)
        ensures
            final(self).spec_day() == day,
    {
        self.day = day;
    }
}

impl Default for Clock {
    fn default() -> (r: Self)
        ensures
            r.spec_day()@ == 0,
    {
        Clock { day: EpochDay(0) }
    }
}

} // verus!
