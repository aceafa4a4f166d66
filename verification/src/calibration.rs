use vstd::prelude::*;
use crate::amount::Amount;
use crate::text::{eq_ignore_case, lower};

verus! {

/// A calibration entry of the redemption desk: the capacities and buffers
/// that suit one account tier over a range of days.
#[derive(Debug, Clone, Copy, PartialEq, Eq)]
pub struct CalibrationProfile {
    pub code: &'static str,
    pub tier: &'static str,
    pub day_floor: u64,
    pub day_ceiling: u64,
    pub priority_capacity: u64,
    pub standard_capacity: u64,
    pub user_ceiling: u64,
    pub reserve_buffer_bps: u32,
    pub release_rate_bps: u32,
    pub note: &'static str,
}

/// `x * y`, or the largest `u64` when the product does not fit.
pub open spec fn saturating_product(x: u64, y: u64) -> nat {
    if x * y > u64::MAX { u64::MAX as nat } else { (x * y) as nat }
}

fn saturating_mul(x: u64, y: u64) -> (r: u64)
    ensures
        r == saturating_product(x, y),
{
    match x.checked_mul(y) {
        Some(p) => p,
        None => u64::MAX,
    }
}

impl CalibrationProfile {
    pub open spec fn spec_covers_day(self, day: u64) -> bool {
        self.day_floor <= day <= self.day_ceiling
    }

    pub open spec fn spec_matches_tier(self, tier: Seq<char>) -> bool {
        lower(self.tier@) == lower(tier)
    }

    /// The ranking of profiles: priority capacity, then standard capacity,
    /// then the share of capacity left after the reserve buffer.
    pub open spec fn rank(self) -> (u64, u64, int) {
        (self.priority_capacity, self.standard_capacity, if self.reserve_buffer_bps <= 10_000 {
            10_000 - self.reserve_buffer_bps
        } else {
            0
        })
    }

    pub fn priority_amount(self) -> (r: Amount)
        ensures
            r@ == self.priority_capacity,
    {
        Amount::from_u64(self.priority_capacity)
    }

    pub fn standard_amount(self) -> (r: Amount)
        ensures
            r@ == self.standard_capacity,
    {
        Amount::from_u64(self.standard_capacity)
    }

    pub fn user_ceiling_amount(self) -> (r: Amount)
        ensures
            r@ == self.user_ceiling,
    {
        Amount::from_u64(self.user_ceiling)
    }

    /// Whether `day` lies in the profile's range of days, both ends included.
    pub fn covers_day(self, day: u64) -> (r: bool)
        ensures
            r == self.spec_covers_day(day),
            r == (self.day_floor <= day && day <= self.day_ceiling),
    {
        day >= self.day_floor && day <= self.day_ceiling
    }

    /// Whether the profile is for `tier`, ignoring ASCII case.
    pub fn matches_tier(self, tier: &str) -> (r: bool)
        ensures
            r == self.spec_matches_tier(tier@),
    {
        eq_ignore_case(self.tier, tier)
    }

    /// The priority capacity less the reserve buffer, rounded down; the
    /// product saturates at the largest `u64`.
    pub fn effective_priority_after_buffer(self) -> (r: Amount)
        requires
            self.reserve_buffer_bps <= 10_000,
        ensures
            r@ == saturating_product(self.priority_capacity, (10_000 - self.reserve_buffer_bps) as u64) / 10_000,
    {
        let keep = (10_000 - self.reserve_buffer_bps) as u64;
        let retained = saturating_mul(self.priority_capacity, keep) / 10_000;
        Amount::from_u64(retained)
    }

    /// The release rate applied to the standard capacity, rounded down; the
    /// product saturates at the largest `u64`.
    pub fn release_amount(self) -> (r: Amount)
        ensures
            r@ == saturating_product(self.standard_capacity, self.release_rate_bps as u64) / 10_000,
    {
        let released = saturating_mul(self.standard_capacity, self.release_rate_bps as u64) / 10_000;
        Amount::from_u64(released)
    }
}

/// The calibration catalog, in code order.
pub open spec fn catalog() -> Seq<CalibrationProfile> {
    seq![
        CalibrationProfile { code: "CRN-001", tier: "retail", day_floor: 0, day_ceiling: 2, priority_capacity: 420, standard_capacity: 980, user_ceiling: 260, reserve_buffer_bps: 700, release_rate_bps: 2400, note: "low traffic retail opening window" },
        CalibrationProfile { code: "CRN-002", tier: "vip", day_floor: 0, day_ceiling: 2, priority_capacity: 900, standard_capacity: 1420, user_ceiling: 620, reserve_buffer_bps: 620, release_rate_bps: 2850, note: "vip opening window with elevated turnover" },
        CalibrationProfile { code: "CRN-003", tier: "institutional", day_floor: 0, day_ceiling: 2, priority_capacity: 1480, standard_capacity: 2200, user_ceiling: 1040, reserve_buffer_bps: 560, release_rate_bps: 3300, note: "institutional launch allocation" },
        CalibrationProfile { code: "CRN-004", tier: "stabilizer", day_floor: 0, day_ceiling: 2, priority_capacity: 1800, standard_capacity: 2600, user_ceiling: 1220, reserve_buffer_bps: 520, release_rate_bps: 3600, note: "stabilizer lane for launch balancing" },
        CalibrationProfile { code: "CRN-005", tier: "retail", day_floor: 3, day_ceiling: 5, priority_capacity: 460, standard_capacity: 1020, user_ceiling: 280, reserve_buffer_bps: 700, release_rate_bps: 2425, note: "retail window after first unlock" },
        CalibrationProfile { code: "CRN-006", tier: "vip", day_floor: 3, day_ceiling: 5, priority_capacity: 960, standard_capacity: 1500, user_ceiling: 660, reserve_buffer_bps: 620, release_rate_bps: 2875, note: "vip window after first unlock" },
        CalibrationProfile { code: "CRN-007", tier: "institutional", day_floor: 3, day_ceiling: 5, priority_capacity: 1540, standard_capacity: 2280, user_ceiling: 1080, reserve_buffer_bps: 560, release_rate_bps: 3325, note: "institutional window after first unlock" },
        CalibrationProfile { code: "CRN-008", tier: "stabilizer", day_floor: 3, day_ceiling: 5, priority_capacity: 1860, standard_capacity: 2680, user_ceiling: 1260, reserve_buffer_bps: 520, release_rate_bps: 3625, note: "stabilizer window after first unlock" },
        CalibrationProfile { code: "CRN-009", tier: "retail", day_floor: 6, day_ceiling: 8, priority_capacity: 500, standard_capacity: 1060, user_ceiling: 300, reserve_buffer_bps: 690, release_rate_bps: 2450, note: "retail steady state band" },
        CalibrationProfile { code: "CRN-010", tier: "vip", day_floor: 6, day_ceiling: 8, priority_capacity: 1020, standard_capacity: 1580, user_ceiling: 700, reserve_buffer_bps: 610, release_rate_bps: 2900, note: "vip steady state band" },
        CalibrationProfile { code: "CRN-011", tier: "institutional", day_floor: 6, day_ceiling: 8, priority_capacity: 1600, standard_capacity: 2360, user_ceiling: 1120, reserve_buffer_bps: 550, release_rate_bps: 3350, note: "institutional steady state band" },
        CalibrationProfile { code: "CRN-012", tier: "stabilizer", day_floor: 6, day_ceiling: 8, priority_capacity: 1920, standard_capacity: 2760, user_ceiling: 1300, reserve_buffer_bps: 510, release_rate_bps: 3650, note: "stabilizer steady state band" },
        CalibrationProfile { code: "CRN-013", tier: "retail", day_floor: 9, day_ceiling: 11, priority_capacity: 540, standard_capacity: 1100, user_ceiling: 320, reserve_buffer_bps: 690, release_rate_bps: 2475, note: "retail weekend settlement band" },
        CalibrationProfile { code: "CRN-014", tier: "vip", day_floor: 9, day_ceiling: 11, priority_capacity: 1080, standard_capacity: 1660, user_ceiling: 740, reserve_buffer_bps: 610, release_rate_bps: 2925, note: "vip weekend settlement band" },
        CalibrationProfile { code: "CRN-015", tier: "institutional", day_floor: 9, day_ceiling: 11, priority_capacity: 1660, standard_capacity: 2440, user_ceiling: 1160, reserve_buffer_bps: 550, release_rate_bps: 3375, note: "institutional weekend settlement band" },
        CalibrationProfile { code: "CRN-016", tier: "stabilizer", day_floor: 9, day_ceiling: 11, priority_capacity: 1980, standard_capacity: 2840, user_ceiling: 1340, reserve_buffer_bps: 510, release_rate_bps: 3675, note: "stabilizer weekend settlement band" },
        CalibrationProfile { code: "CRN-017", tier: "retail", day_floor: 12, day_ceiling: 14, priority_capacity: 580, standard_capacity: 1140, user_ceiling: 340, reserve_buffer_bps: 680, release_rate_bps: 2500, note: "retail mid cycle band" },
        CalibrationProfile { code: "CRN-018", tier: "vip", day_floor: 12, day_ceiling: 14, priority_capacity: 1140, standard_capacity: 1740, user_ceiling: 780, reserve_buffer_bps: 600, release_rate_bps: 2950, note: "vip mid cycle band" },
        CalibrationProfile { code: "CRN-019", tier: "institutional", day_floor: 12, day_ceiling: 14, priority_capacity: 1720, standard_capacity: 2520, user_ceiling: 1200, reserve_buffer_bps: 540, release_rate_bps: 3400, note: "institutional mid cycle band" },
        CalibrationProfile { code: "CRN-020", tier: "stabilizer", day_floor: 12, day_ceiling: 14, priority_capacity: 2040, standard_capacity: 2920, user_ceiling: 1380, reserve_buffer_bps: 500, release_rate_bps: 3700, note: "stabilizer mid cycle band" },
        CalibrationProfile { code: "CRN-021", tier: "retail", day_floor: 15, day_ceiling: 17, priority_capacity: 620, standard_capacity: 1180, user_ceiling: 360, reserve_buffer_bps: 680, release_rate_bps: 2525, note: "retail cycle expansion" },
        CalibrationProfile { code: "CRN-022", tier: "vip", day_floor: 15, day_ceiling: 17, priority_capacity: 1200, standard_capacity: 1820, user_ceiling: 820, reserve_buffer_bps: 600, release_rate_bps: 2975, note: "vip cycle expansion" },
        CalibrationProfile { code: "CRN-023", tier: "institutional", day_floor: 15, day_ceiling: 17, priority_capacity: 1780, standard_capacity: 2600, user_ceiling: 1240, reserve_buffer_bps: 540, release_rate_bps: 3425, note: "institutional cycle expansion" },
        CalibrationProfile { code: "CRN-024", tier: "stabilizer", day_floor: 15, day_ceiling: 17, priority_capacity: 2100, standard_capacity: 3000, user_ceiling: 1420, reserve_buffer_bps: 500, release_rate_bps: 3725, note: "stabilizer cycle expansion" },
        CalibrationProfile { code: "CRN-025", tier: "retail", day_floor: 18, day_ceiling: 20, priority_capacity: 660, standard_capacity: 1220, user_ceiling: 380, reserve_buffer_bps: 670, release_rate_bps: 2550, note: "retail late cycle band" },
        CalibrationProfile { code: "CRN-026", tier: "vip", day_floor: 18, day_ceiling: 20, priority_capacity: 1260, standard_capacity: 1900, user_ceiling: 860, reserve_buffer_bps: 590, release_rate_bps: 3000, note: "vip late cycle band" },
        CalibrationProfile { code: "CRN-027", tier: "institutional", day_floor: 18, day_ceiling: 20, priority_capacity: 1840, standard_capacity: 2680, user_ceiling: 1280, reserve_buffer_bps: 530, release_rate_bps: 3450, note: "institutional late cycle band" },
        CalibrationProfile { code: "CRN-028", tier: "stabilizer", day_floor: 18, day_ceiling: 20, priority_capacity: 2160, standard_capacity: 3080, user_ceiling: 1460, reserve_buffer_bps: 490, release_rate_bps: 3750, note: "stabilizer late cycle band" },
        CalibrationProfile { code: "CRN-029", tier: "retail", day_floor: 21, day_ceiling: 23, priority_capacity: 700, standard_capacity: 1260, user_ceiling: 400, reserve_buffer_bps: 670, release_rate_bps: 2575, note: "retail pre close band" },
        CalibrationProfile { code: "CRN-030", tier: "vip", day_floor: 21, day_ceiling: 23, priority_capacity: 1320, standard_capacity: 1980, user_ceiling: 900, reserve_buffer_bps: 590, release_rate_bps: 3025, note: "vip pre close band" },
        CalibrationProfile { code: "CRN-031", tier: "institutional", day_floor: 21, day_ceiling: 23, priority_capacity: 1900, standard_capacity: 2760, user_ceiling: 1320, reserve_buffer_bps: 530, release_rate_bps: 3475, note: "institutional pre close band" },
        CalibrationProfile { code: "CRN-032", tier: "stabilizer", day_floor: 21, day_ceiling: 23, priority_capacity: 2220, standard_capacity: 3160, user_ceiling: 1500, reserve_buffer_bps: 490, release_rate_bps: 3775, note: "stabilizer pre close band" },
        CalibrationProfile { code: "CRN-033", tier: "retail", day_floor: 24, day_ceiling: 26, priority_capacity: 740, standard_capacity: 1300, user_ceiling: 420, reserve_buffer_bps: 660, release_rate_bps: 2600, note: "retail close preparation" },
        CalibrationProfile { code: "CRN-034", tier: "vip", day_floor: 24, day_ceiling: 26, priority_capacity: 1380, standard_capacity: 2060, user_ceiling: 940, reserve_buffer_bps: 580, release_rate_bps: 3050, note: "vip close preparation" },
        CalibrationProfile { code: "CRN-035", tier: "institutional", day_floor: 24, day_ceiling: 26, priority_capacity: 1960, standard_capacity: 2840, user_ceiling: 1360, reserve_buffer_bps: 520, release_rate_bps: 3500, note: "institutional close preparation" },
        CalibrationProfile { code: "CRN-036", tier: "stabilizer", day_floor: 24, day_ceiling: 26, priority_capacity: 2280, standard_capacity: 3240, user_ceiling: 1540, reserve_buffer_bps: 480, release_rate_bps: 3800, note: "stabilizer close preparation" },
        CalibrationProfile { code: "CRN-037", tier: "retail", day_floor: 27, day_ceiling: 29, priority_capacity: 780, standard_capacity: 1340, user_ceiling: 440, reserve_buffer_bps: 660, release_rate_bps: 2625, note: "retail monthly close" },
        CalibrationProfile { code: "CRN-038", tier: "vip", day_floor: 27, day_ceiling: 29, priority_capacity: 1440, standard_capacity: 2140, user_ceiling: 980, reserve_buffer_bps: 580, release_rate_bps: 3075, note: "vip monthly close" },
        CalibrationProfile { code: "CRN-039", tier: "institutional", day_floor: 27, day_ceiling: 29, priority_capacity: 2020, standard_capacity: 2920, user_ceiling: 1400, reserve_buffer_bps: 520, release_rate_bps: 3525, note: "institutional monthly close" },
        CalibrationProfile { code: "CRN-040", tier: "stabilizer", day_floor: 27, day_ceiling: 29, priority_capacity: 2340, standard_capacity: 3320, user_ceiling: 1580, reserve_buffer_bps: 480, release_rate_bps: 3825, note: "stabilizer monthly close" },
        CalibrationProfile { code: "CRN-041", tier: "retail", day_floor: 30, day_ceiling: 32, priority_capacity: 760, standard_capacity: 1320, user_ceiling: 430, reserve_buffer_bps: 665, release_rate_bps: 2610, note: "retail new cycle reset" },
        CalibrationProfile { code: "CRN-042", tier: "vip", day_floor: 30, day_ceiling: 32, priority_capacity: 1400, standard_capacity: 2100, user_ceiling: 960, reserve_buffer_bps: 585, release_rate_bps: 3060, note: "vip new cycle reset" },
        CalibrationProfile { code: "CRN-043", tier: "institutional", day_floor: 30, day_ceiling: 32, priority_capacity: 1980, standard_capacity: 2880, user_ceiling: 1380, reserve_buffer_bps: 525, release_rate_bps: 3510, note: "institutional new cycle reset" },
        CalibrationProfile { code: "CRN-044", tier: "stabilizer", day_floor: 30, day_ceiling: 32, priority_capacity: 2300, standard_capacity: 3280, user_ceiling: 1560, reserve_buffer_bps: 485, release_rate_bps: 3810, note: "stabilizer new cycle reset" },
        CalibrationProfile { code: "CRN-045", tier: "retail", day_floor: 33, day_ceiling: 35, priority_capacity: 720, standard_capacity: 1280, user_ceiling: 410, reserve_buffer_bps: 675, release_rate_bps: 2585, note: "retail cool down band" },
        CalibrationProfile { code: "CRN-046", tier: "vip", day_floor: 33, day_ceiling: 35, priority_capacity: 1340, standard_capacity: 2020, user_ceiling: 920, reserve_buffer_bps: 595, release_rate_bps: 3035, note: "vip cool down band" },
        CalibrationProfile { code: "CRN-047", tier: "institutional", day_floor: 33, day_ceiling: 35, priority_capacity: 1920, standard_capacity: 2800, user_ceiling: 1340, reserve_buffer_bps: 535, release_rate_bps: 3485, note: "institutional cool down band" },
        CalibrationProfile { code: "CRN-048", tier: "stabilizer", day_floor: 33, day_ceiling: 35, priority_capacity: 2240, standard_capacity: 3200, user_ceiling: 1520, reserve_buffer_bps: 495, release_rate_bps: 3785, note: "stabilizer cool down band" },
        CalibrationProfile { code: "CRN-049", tier: "retail", day_floor: 36, day_ceiling: 38, priority_capacity: 680, standard_capacity: 1240, user_ceiling: 390, reserve_buffer_bps: 685, release_rate_bps: 2560, note: "retail compression band" },
        CalibrationProfile { code: "CRN-050", tier: "vip", day_floor: 36, day_ceiling: 38, priority_capacity: 1280, standard_capacity: 1940, user_ceiling: 880, reserve_buffer_bps: 605, release_rate_bps: 3010, note: "vip compression band" },
        CalibrationProfile { code: "CRN-051", tier: "institutional", day_floor: 36, day_ceiling: 38, priority_capacity: 1860, standard_capacity: 2720, user_ceiling: 1300, reserve_buffer_bps: 545, release_rate_bps: 3460, note: "institutional compression band" },
        CalibrationProfile { code: "CRN-052", tier: "stabilizer", day_floor: 36, day_ceiling: 38, priority_capacity: 2180, standard_capacity: 3120, user_ceiling: 1480, reserve_buffer_bps: 505, release_rate_bps: 3760, note: "stabilizer compression band" },
        CalibrationProfile { code: "CRN-053", tier: "retail", day_floor: 39, day_ceiling: 41, priority_capacity: 640, standard_capacity: 1200, user_ceiling: 370, reserve_buffer_bps: 695, release_rate_bps: 2535, note: "retail reserve rebuild" },
        CalibrationProfile { code: "CRN-054", tier: "vip", day_floor: 39, day_ceiling: 41, priority_capacity: 1220, standard_capacity: 1860, user_ceiling: 840, reserve_buffer_bps: 615, release_rate_bps: 2985, note: "vip reserve rebuild" },
        CalibrationProfile { code: "CRN-055", tier: "institutional", day_floor: 39, day_ceiling: 41, priority_capacity: 1800, standard_capacity: 2640, user_ceiling: 1260, reserve_buffer_bps: 555, release_rate_bps: 3435, note: "institutional reserve rebuild" },
        CalibrationProfile { code: "CRN-056", tier: "stabilizer", day_floor: 39, day_ceiling: 41, priority_capacity: 2120, standard_capacity: 3040, user_ceiling: 1440, reserve_buffer_bps: 515, release_rate_bps: 3735, note: "stabilizer reserve rebuild" },
        CalibrationProfile { code: "CRN-057", tier: "retail", day_floor: 42, day_ceiling: 44, priority_capacity: 600, standard_capacity: 1160, user_ceiling: 350, reserve_buffer_bps: 705, release_rate_bps: 2510, note: "retail conservative band" },
        CalibrationProfile { code: "CRN-058", tier: "vip", day_floor: 42, day_ceiling: 44, priority_capacity: 1160, standard_capacity: 1780, user_ceiling: 800, reserve_buffer_bps: 625, release_rate_bps: 2960, note: "vip conservative band" },
        CalibrationProfile { code: "CRN-059", tier: "institutional", day_floor: 42, day_ceiling: 44, priority_capacity: 1740, standard_capacity: 2560, user_ceiling: 1220, reserve_buffer_bps: 565, release_rate_bps: 3410, note: "institutional conservative band" },
        CalibrationProfile { code: "CRN-060", tier: "stabilizer", day_floor: 42, day_ceiling: 44, priority_capacity: 2060, standard_capacity: 2960, user_ceiling: 1400, reserve_buffer_bps: 525, release_rate_bps: 3710, note: "stabilizer conservative band" },
        CalibrationProfile { code: "CRN-061", tier: "retail", day_floor: 45, day_ceiling: 47, priority_capacity: 560, standard_capacity: 1120, user_ceiling: 330, reserve_buffer_bps: 715, release_rate_bps: 2485, note: "retail drawdown guard" },
        CalibrationProfile { code: "CRN-062", tier: "vip", day_floor: 45, day_ceiling: 47, priority_capacity: 1100, standard_capacity: 1700, user_ceiling: 760, reserve_buffer_bps: 635, release_rate_bps: 2935, note: "vip drawdown guard" },
        CalibrationProfile { code: "CRN-063", tier: "institutional", day_floor: 45, day_ceiling: 47, priority_capacity: 1680, standard_capacity: 2480, user_ceiling: 1180, reserve_buffer_bps: 575, release_rate_bps: 3385, note: "institutional drawdown guard" },
        CalibrationProfile { code: "CRN-064", tier: "stabilizer", day_floor: 45, day_ceiling: 47, priority_capacity: 2000, standard_capacity: 2880, user_ceiling: 1360, reserve_buffer_bps: 535, release_rate_bps: 3685, note: "stabilizer drawdown guard" },
        CalibrationProfile { code: "CRN-065", tier: "retail", day_floor: 48, day_ceiling: 50, priority_capacity: 520, standard_capacity: 1080, user_ceiling: 310, reserve_buffer_bps: 725, release_rate_bps: 2460, note: "retail high buffer band" },
        CalibrationProfile { code: "CRN-066", tier: "vip", day_floor: 48, day_ceiling: 50, priority_capacity: 1040, standard_capacity: 1620, user_ceiling: 720, reserve_buffer_bps: 645, release_rate_bps: 2910, note: "vip high buffer band" },
        CalibrationProfile { code: "CRN-067", tier: "institutional", day_floor: 48, day_ceiling: 50, priority_capacity: 1620, standard_capacity: 2400, user_ceiling: 1140, reserve_buffer_bps: 585, release_rate_bps: 3360, note: "institutional high buffer band" },
        CalibrationProfile { code: "CRN-068", tier: "stabilizer", day_floor: 48, day_ceiling: 50, priority_capacity: 1940, standard_capacity: 2800, user_ceiling: 1320, reserve_buffer_bps: 545, release_rate_bps: 3660, note: "stabilizer high buffer band" },
        CalibrationProfile { code: "CRN-069", tier: "retail", day_floor: 51, day_ceiling: 53, priority_capacity: 480, standard_capacity: 1040, user_ceiling: 290, reserve_buffer_bps: 735, release_rate_bps: 2435, note: "retail low release band" },
        CalibrationProfile { code: "CRN-070", tier: "vip", day_floor: 51, day_ceiling: 53, priority_capacity: 980, standard_capacity: 1540, user_ceiling: 680, reserve_buffer_bps: 655, release_rate_bps: 2885, note: "vip low release band" },
        CalibrationProfile { code: "CRN-071", tier: "institutional", day_floor: 51, day_ceiling: 53, priority_capacity: 1560, standard_capacity: 2320, user_ceiling: 1100, reserve_buffer_bps: 595, release_rate_bps: 3335, note: "institutional low release band" },
        CalibrationProfile { code: "CRN-072", tier: "stabilizer", day_floor: 51, day_ceiling: 53, priority_capacity: 1880, standard_capacity: 2720, user_ceiling: 1280, reserve_buffer_bps: 555, release_rate_bps: 3635, note: "stabilizer low release band" },
        CalibrationProfile { code: "CRN-073", tier: "retail", day_floor: 54, day_ceiling: 56, priority_capacity: 440, standard_capacity: 1000, user_ceiling: 270, reserve_buffer_bps: 745, release_rate_bps: 2410, note: "retail stress entry" },
        CalibrationProfile { code: "CRN-074", tier: "vip", day_floor: 54, day_ceiling: 56, priority_capacity: 920, standard_capacity: 1460, user_ceiling: 640, reserve_buffer_bps: 665, release_rate_bps: 2860, note: "vip stress entry" },
        CalibrationProfile { code: "CRN-075", tier: "institutional", day_floor: 54, day_ceiling: 56, priority_capacity: 1500, standard_capacity: 2240, user_ceiling: 1060, reserve_buffer_bps: 605, release_rate_bps: 3310, note: "institutional stress entry" },
        CalibrationProfile { code: "CRN-076", tier: "stabilizer", day_floor: 54, day_ceiling: 56, priority_capacity: 1820, standard_capacity: 2640, user_ceiling: 1240, reserve_buffer_bps: 565, release_rate_bps: 3610, note: "stabilizer stress entry" },
        CalibrationProfile { code: "CRN-077", tier: "retail", day_floor: 57, day_ceiling: 59, priority_capacity: 400, standard_capacity: 960, user_ceiling: 250, reserve_buffer_bps: 755, release_rate_bps: 2385, note: "retail stress close" },
        CalibrationProfile { code: "CRN-078", tier: "vip", day_floor: 57, day_ceiling: 59, priority_capacity: 860, standard_capacity: 1380, user_ceiling: 600, reserve_buffer_bps: 675, release_rate_bps: 2835, note: "vip stress close" },
        CalibrationProfile { code: "CRN-079", tier: "institutional", day_floor: 57, day_ceiling: 59, priority_capacity: 1440, standard_capacity: 2160, user_ceiling: 1020, reserve_buffer_bps: 615, release_rate_bps: 3285, note: "institutional stress close" },
        CalibrationProfile { code: "CRN-080", tier: "stabilizer", day_floor: 57, day_ceiling: 59, priority_capacity: 1760, standard_capacity: 2560, user_ceiling: 1200, reserve_buffer_bps: 575, release_rate_bps: 3585, note: "stabilizer stress close" }
    ]
}

/// The calibration catalog, in code order.
pub fn profile_catalog() -> (r: Vec<CalibrationProfile>)
    ensures
        r@ == catalog(),
{
    let mut out: Vec<CalibrationProfile> = Vec::new();
    out.push(CalibrationProfile { code: "CRN-001", tier: "retail", day_floor: 0, day_ceiling: 2, priority_capacity: 420, standard_capacity: 980, user_ceiling: 260, reserve_buffer_bps: 700, release_rate_bps: 2400, note: "low traffic retail opening window" });
    out.push(CalibrationProfile { code: "CRN-002", tier: "vip", day_floor: 0, day_ceiling: 2, priority_capacity: 900, standard_capacity: 1420, user_ceiling: 620, reserve_buffer_bps: 620, release_rate_bps: 2850, note: "vip opening window with elevated turnover" });
    out.push(CalibrationProfile { code: "CRN-003", tier: "institutional", day_floor: 0, day_ceiling: 2, priority_capacity: 1480, standard_capacity: 2200, user_ceiling: 1040, reserve_buffer_bps: 560, release_rate_bps: 3300, note: "institutional launch allocation" });
    out.push(CalibrationProfile { code: "CRN-004", tier: "stabilizer", day_floor: 0, day_ceiling: 2, priority_capacity: 1800, standard_capacity: 2600, user_ceiling: 1220, reserve_buffer_bps: 520, release_rate_bps: 3600, note: "stabilizer lane for launch balancing" });
    out.push(CalibrationProfile { code: "CRN-005", tier: "retail", day_floor: 3, day_ceiling: 5, priority_capacity: 460, standard_capacity: 1020, user_ceiling: 280, reserve_buffer_bps: 700, release_rate_bps: 2425, note: "retail window after first unlock" });
    out.push(CalibrationProfile { code: "CRN-006", tier: "vip", day_floor: 3, day_ceiling: 5, priority_capacity: 960, standard_capacity: 1500, user_ceiling: 660, reserve_buffer_bps: 620, release_rate_bps: 2875, note: "vip window after first unlock" });
    out.push(CalibrationProfile { code: "CRN-007", tier: "institutional", day_floor: 3, day_ceiling: 5, priority_capacity: 1540, standard_capacity: 2280, user_ceiling: 1080, reserve_buffer_bps: 560, release_rate_bps: 3325, note: "institutional window after first unlock" });
    out.push(CalibrationProfile { code: "CRN-008", tier: "stabilizer", day_floor: 3, day_ceiling: 5, priority_capacity: 1860, standard_capacity: 2680, user_ceiling: 1260, reserve_buffer_bps: 520, release_rate_bps: 3625, note: "stabilizer window after first unlock" });
    out.push(CalibrationProfile { code: "CRN-009", tier: "retail", day_floor: 6, day_ceiling: 8, priority_capacity: 500, standard_capacity: 1060, user_ceiling: 300, reserve_buffer_bps: 690, release_rate_bps: 2450, note: "retail steady state band" });
    out.push(CalibrationProfile { code: "CRN-010", tier: "vip", day_floor: 6, day_ceiling: 8, priority_capacity: 1020, standard_capacity: 1580, user_ceiling: 700, reserve_buffer_bps: 610, release_rate_bps: 2900, note: "vip steady state band" });
    out.push(CalibrationProfile { code: "CRN-011", tier: "institutional", day_floor: 6, day_ceiling: 8, priority_capacity: 1600, standard_capacity: 2360, user_ceiling: 1120, reserve_buffer_bps: 550, release_rate_bps: 3350, note: "institutional steady state band" });
    out.push(CalibrationProfile { code: "CRN-012", tier: "stabilizer", day_floor: 6, day_ceiling: 8, priority_capacity: 1920, standard_capacity: 2760, user_ceiling: 1300, reserve_buffer_bps: 510, release_rate_bps: 3650, note: "stabilizer steady state band" });
    out.push(CalibrationProfile { code: "CRN-013", tier: "retail", day_floor: 9, day_ceiling: 11, priority_capacity: 540, standard_capacity: 1100, user_ceiling: 320, reserve_buffer_bps: 690, release_rate_bps: 2475, note: "retail weekend settlement band" });
    out.push(CalibrationProfile { code: "CRN-014", tier: "vip", day_floor: 9, day_ceiling: 11, priority_capacity: 1080, standard_capacity: 1660, user_ceiling: 740, reserve_buffer_bps: 610, release_rate_bps: 2925, note: "vip weekend settlement band" });
    out.push(CalibrationProfile { code: "CRN-015", tier: "institutional", day_floor: 9, day_ceiling: 11, priority_capacity: 1660, standard_capacity: 2440, user_ceiling: 1160, reserve_buffer_bps: 550, release_rate_bps: 3375, note: "institutional weekend settlement band" });
    out.push(CalibrationProfile { code: "CRN-016", tier: "stabilizer", day_floor: 9, day_ceiling: 11, priority_capacity: 1980, standard_capacity: 2840, user_ceiling: 1340, reserve_buffer_bps: 510, release_rate_bps: 3675, note: "stabilizer weekend settlement band" });
    out.push(CalibrationProfile { code: "CRN-017", tier: "retail", day_floor: 12, day_ceiling: 14, priority_capacity: 580, standard_capacity: 1140, user_ceiling: 340, reserve_buffer_bps: 680, release_rate_bps: 2500, note: "retail mid cycle band" });
    out.push(CalibrationProfile { code: "CRN-018", tier: "vip", day_floor: 12, day_ceiling: 14, priority_capacity: 1140, standard_capacity: 1740, user_ceiling: 780, reserve_buffer_bps: 600, release_rate_bps: 2950, note: "vip mid cycle band" });
    out.push(CalibrationProfile { code: "CRN-019", tier: "institutional", day_floor: 12, day_ceiling: 14, priority_capacity: 1720, standard_capacity: 2520, user_ceiling: 1200, reserve_buffer_bps: 540, release_rate_bps: 3400, note: "institutional mid cycle band" });
    out.push(CalibrationProfile { code: "CRN-020", tier: "stabilizer", day_floor: 12, day_ceiling: 14, priority_capacity: 2040, standard_capacity: 2920, user_ceiling: 1380, reserve_buffer_bps: 500, release_rate_bps: 3700, note: "stabilizer mid cycle band" });
    out.push(CalibrationProfile { code: "CRN-021", tier: "retail", day_floor: 15, day_ceiling: 17, priority_capacity: 620, standard_capacity: 1180, user_ceiling: 360, reserve_buffer_bps: 680, release_rate_bps: 2525, note: "retail cycle expansion" });
    out.push(CalibrationProfile { code: "CRN-022", tier: "vip", day_floor: 15, day_ceiling: 17, priority_capacity: 1200, standard_capacity: 1820, user_ceiling: 820, reserve_buffer_bps: 600, release_rate_bps: 2975, note: "vip cycle expansion" });
    out.push(CalibrationProfile { code: "CRN-023", tier: "institutional", day_floor: 15, day_ceiling: 17, priority_capacity: 1780, standard_capacity: 2600, user_ceiling: 1240, reserve_buffer_bps: 540, release_rate_bps: 3425, note: "institutional cycle expansion" });
    out.push(CalibrationProfile { code: "CRN-024", tier: "stabilizer", day_floor: 15, day_ceiling: 17, priority_capacity: 2100, standard_capacity: 3000, user_ceiling: 1420, reserve_buffer_bps: 500, release_rate_bps: 3725, note: "stabilizer cycle expansion" });
    out.push(CalibrationProfile { code: "CRN-025", tier: "retail", day_floor: 18, day_ceiling: 20, priority_capacity: 660, standard_capacity: 1220, user_ceiling: 380, reserve_buffer_bps: 670, release_rate_bps: 2550, note: "retail late cycle band" });
    out.push(CalibrationProfile { code: "CRN-026", tier: "vip", day_floor: 18, day_ceiling: 20, priority_capacity: 1260, standard_capacity: 1900, user_ceiling: 860, reserve_buffer_bps: 590, release_rate_bps: 3000, note: "vip late cycle band" });
    out.push(CalibrationProfile { code: "CRN-027", tier: "institutional", day_floor: 18, day_ceiling: 20, priority_capacity: 1840, standard_capacity: 2680, user_ceiling: 1280, reserve_buffer_bps: 530, release_rate_bps: 3450, note: "institutional late cycle band" });
    out.push(CalibrationProfile { code: "CRN-028", tier: "stabilizer", day_floor: 18, day_ceiling: 20, priority_capacity: 2160, standard_capacity: 3080, user_ceiling: 1460, reserve_buffer_bps: 490, release_rate_bps: 3750, note: "stabilizer late cycle band" });
    out.push(CalibrationProfile { code: "CRN-029", tier: "retail", day_floor: 21, day_ceiling: 23, priority_capacity: 700, standard_capacity: 1260, user_ceiling: 400, reserve_buffer_bps: 670, release_rate_bps: 2575, note: "retail pre close band" });
    out.push(CalibrationProfile { code: "CRN-030", tier: "vip", day_floor: 21, day_ceiling: 23, priority_capacity: 1320, standard_capacity: 1980, user_ceiling: 900, reserve_buffer_bps: 590, release_rate_bps: 3025, note: "vip pre close band" });
    out.push(CalibrationProfile { code: "CRN-031", tier: "institutional", day_floor: 21, day_ceiling: 23, priority_capacity: 1900, standard_capacity: 2760, user_ceiling: 1320, reserve_buffer_bps: 530, release_rate_bps: 3475, note: "institutional pre close band" });
    out.push(CalibrationProfile { code: "CRN-032", tier: "stabilizer", day_floor: 21, day_ceiling: 23, priority_capacity: 2220, standard_capacity: 3160, user_ceiling: 1500, reserve_buffer_bps: 490, release_rate_bps: 3775, note: "stabilizer pre close band" });
    out.push(CalibrationProfile { code: "CRN-033", tier: "retail", day_floor: 24, day_ceiling: 26, priority_capacity: 740, standard_capacity: 1300, user_ceiling: 420, reserve_buffer_bps: 660, release_rate_bps: 2600, note: "retail close preparation" });
    out.push(CalibrationProfile { code: "CRN-034", tier: "vip", day_floor: 24, day_ceiling: 26, priority_capacity: 1380, standard_capacity: 2060, user_ceiling: 940, reserve_buffer_bps: 580, release_rate_bps: 3050, note: "vip close preparation" });
    out.push(CalibrationProfile { code: "CRN-035", tier: "institutional", day_floor: 24, day_ceiling: 26, priority_capacity: 1960, standard_capacity: 2840, user_ceiling: 1360, reserve_buffer_bps: 520, release_rate_bps: 3500, note: "institutional close preparation" });
    out.push(CalibrationProfile { code: "CRN-036", tier: "stabilizer", day_floor: 24, day_ceiling: 26, priority_capacity: 2280, standard_capacity: 3240, user_ceiling: 1540, reserve_buffer_bps: 480, release_rate_bps: 3800, note: "stabilizer close preparation" });
    out.push(CalibrationProfile { code: "CRN-037", tier: "retail", day_floor: 27, day_ceiling: 29, priority_capacity: 780, standard_capacity: 1340, user_ceiling: 440, reserve_buffer_bps: 660, release_rate_bps: 2625, note: "retail monthly close" });
    out.push(CalibrationProfile { code: "CRN-038", tier: "vip", day_floor: 27, day_ceiling: 29, priority_capacity: 1440, standard_capacity: 2140, user_ceiling: 980, reserve_buffer_bps: 580, release_rate_bps: 3075, note: "vip monthly close" });
    out.push(CalibrationProfile { code: "CRN-039", tier: "institutional", day_floor: 27, day_ceiling: 29, priority_capacity: 2020, standard_capacity: 2920, user_ceiling: 1400, reserve_buffer_bps: 520, release_rate_bps: 3525, note: "institutional monthly close" });
    out.push(CalibrationProfile { code: "CRN-040", tier: "stabilizer", day_floor: 27, day_ceiling: 29, priority_capacity: 2340, standard_capacity: 3320, user_ceiling: 1580, reserve_buffer_bps: 480, release_rate_bps: 3825, note: "stabilizer monthly close" });
    out.push(CalibrationProfile { code: "CRN-041", tier: "retail", day_floor: 30, day_ceiling: 32, priority_capacity: 760, standard_capacity: 1320, user_ceiling: 430, reserve_buffer_bps: 665, release_rate_bps: 2610, note: "retail new cycle reset" });
    out.push(CalibrationProfile { code: "CRN-042", tier: "vip", day_floor: 30, day_ceiling: 32, priority_capacity: 1400, standard_capacity: 2100, user_ceiling: 960, reserve_buffer_bps: 585, release_rate_bps: 3060, note: "vip new cycle reset" });
    out.push(CalibrationProfile { code: "CRN-043", tier: "institutional", day_floor: 30, day_ceiling: 32, priority_capacity: 1980, standard_capacity: 2880, user_ceiling: 1380, reserve_buffer_bps: 525, release_rate_bps: 3510, note: "institutional new cycle reset" });
    out.push(CalibrationProfile { code: "CRN-044", tier: "stabilizer", day_floor: 30, day_ceiling: 32, priority_capacity: 2300, standard_capacity: 3280, user_ceiling: 1560, reserve_buffer_bps: 485, release_rate_bps: 3810, note: "stabilizer new cycle reset" });
    out.push(CalibrationProfile { code: "CRN-045", tier: "retail", day_floor: 33, day_ceiling: 35, priority_capacity: 720, standard_capacity: 1280, user_ceiling: 410, reserve_buffer_bps: 675, release_rate_bps: 2585, note: "retail cool down band" });
    out.push(CalibrationProfile { code: "CRN-046", tier: "vip", day_floor: 33, day_ceiling: 35, priority_capacity: 1340, standard_capacity: 2020, user_ceiling: 920, reserve_buffer_bps: 595, release_rate_bps: 3035, note: "vip cool down band" });
    out.push(CalibrationProfile { code: "CRN-047", tier: "institutional", day_floor: 33, day_ceiling: 35, priority_capacity: 1920, standard_capacity: 2800, user_ceiling: 1340, reserve_buffer_bps: 535, release_rate_bps: 3485, note: "institutional cool down band" });
    out.push(CalibrationProfile { code: "CRN-048", tier: "stabilizer", day_floor: 33, day_ceiling: 35, priority_capacity: 2240, standard_capacity: 3200, user_ceiling: 1520, reserve_buffer_bps: 495, release_rate_bps: 3785, note: "stabilizer cool down band" });
    out.push(CalibrationProfile { code: "CRN-049", tier: "retail", day_floor: 36, day_ceiling: 38, priority_capacity: 680, standard_capacity: 1240, user_ceiling: 390, reserve_buffer_bps: 685, release_rate_bps: 2560, note: "retail compression band" });
    out.push(CalibrationProfile { code: "CRN-050", tier: "vip", day_floor: 36, day_ceiling: 38, priority_capacity: 1280, standard_capacity: 1940, user_ceiling: 880, reserve_buffer_bps: 605, release_rate_bps: 3010, note: "vip compression band" });
    out.push(CalibrationProfile { code: "CRN-051", tier: "institutional", day_floor: 36, day_ceiling: 38, priority_capacity: 1860, standard_capacity: 2720, user_ceiling: 1300, reserve_buffer_bps: 545, release_rate_bps: 3460, note: "institutional compression band" });
    out.push(CalibrationProfile { code: "CRN-052", tier: "stabilizer", day_floor: 36, day_ceiling: 38, priority_capacity: 2180, standard_capacity: 3120, user_ceiling: 1480, reserve_buffer_bps: 505, release_rate_bps: 3760, note: "stabilizer compression band" });
    out.push(CalibrationProfile { code: "CRN-053", tier: "retail", day_floor: 39, day_ceiling: 41, priority_capacity: 640, standard_capacity: 1200, user_ceiling: 370, reserve_buffer_bps: 695, release_rate_bps: 2535, note: "retail reserve rebuild" });
    out.push(CalibrationProfile { code: "CRN-054", tier: "vip", day_floor: 39, day_ceiling: 41, priority_capacity: 1220, standard_capacity: 1860, user_ceiling: 840, reserve_buffer_bps: 615, release_rate_bps: 2985, note: "vip reserve rebuild" });
    out.push(CalibrationProfile { code: "CRN-055", tier: "institutional", day_floor: 39, day_ceiling: 41, priority_capacity: 1800, standard_capacity: 2640, user_ceiling: 1260, reserve_buffer_bps: 555, release_rate_bps: 3435, note: "institutional reserve rebuild" });
    out.push(CalibrationProfile { code: "CRN-056", tier: "stabilizer", day_floor: 39, day_ceiling: 41, priority_capacity: 2120, standard_capacity: 3040, user_ceiling: 1440, reserve_buffer_bps: 515, release_rate_bps: 3735, note: "stabilizer reserve rebuild" });
    out.push(CalibrationProfile { code: "CRN-057", tier: "retail", day_floor: 42, day_ceiling: 44, priority_capacity: 600, standard_capacity: 1160, user_ceiling: 350, reserve_buffer_bps: 705, release_rate_bps: 2510, note: "retail conservative band" });
    out.push(CalibrationProfile { code: "CRN-058", tier: "vip", day_floor: 42, day_ceiling: 44, priority_capacity: 1160, standard_capacity: 1780, user_ceiling: 800, reserve_buffer_bps: 625, release_rate_bps: 2960, note: "vip conservative band" });
    out.push(CalibrationProfile { code: "CRN-059", tier: "institutional", day_floor: 42, day_ceiling: 44, priority_capacity: 1740, standard_capacity: 2560, user_ceiling: 1220, reserve_buffer_bps: 565, release_rate_bps: 3410, note: "institutional conservative band" });
    out.push(CalibrationProfile { code: "CRN-060", tier: "stabilizer", day_floor: 42, day_ceiling: 44, priority_capacity: 2060, standard_capacity: 2960, user_ceiling: 1400, reserve_buffer_bps: 525, release_rate_bps: 3710, note: "stabilizer conservative band" });
    out.push(CalibrationProfile { code: "CRN-061", tier: "retail", day_floor: 45, day_ceiling: 47, priority_capacity: 560, standard_capacity: 1120, user_ceiling: 330, reserve_buffer_bps: 715, release_rate_bps: 2485, note: "retail drawdown guard" });
    out.push(CalibrationProfile { code: "CRN-062", tier: "vip", day_floor: 45, day_ceiling: 47, priority_capacity: 1100, standard_capacity: 1700, user_ceiling: 760, reserve_buffer_bps: 635, release_rate_bps: 2935, note: "vip drawdown guard" });
    out.push(CalibrationProfile { code: "CRN-063", tier: "institutional", day_floor: 45, day_ceiling: 47, priority_capacity: 1680, standard_capacity: 2480, user_ceiling: 1180, reserve_buffer_bps: 575, release_rate_bps: 3385, note: "institutional drawdown guard" });
    out.push(CalibrationProfile { code: "CRN-064", tier: "stabilizer", day_floor: 45, day_ceiling: 47, priority_capacity: 2000, standard_capacity: 2880, user_ceiling: 1360, reserve_buffer_bps: 535, release_rate_bps: 3685, note: "stabilizer drawdown guard" });
    out.push(CalibrationProfile { code: "CRN-065", tier: "retail", day_floor: 48, day_ceiling: 50, priority_capacity: 520, standard_capacity: 1080, user_ceiling: 310, reserve_buffer_bps: 725, release_rate_bps: 2460, note: "retail high buffer band" });
    out.push(CalibrationProfile { code: "CRN-066", tier: "vip", day_floor: 48, day_ceiling: 50, priority_capacity: 1040, standard_capacity: 1620, user_ceiling: 720, reserve_buffer_bps: 645, release_rate_bps: 2910, note: "vip high buffer band" });
    out.push(CalibrationProfile { code: "CRN-067", tier: "institutional", day_floor: 48, day_ceiling: 50, priority_capacity: 1620, standard_capacity: 2400, user_ceiling: 1140, reserve_buffer_bps: 585, release_rate_bps: 3360, note: "institutional high buffer band" });
    out.push(CalibrationProfile { code: "CRN-068", tier: "stabilizer", day_floor: 48, day_ceiling: 50, priority_capacity: 1940, standard_capacity: 2800, user_ceiling: 1320, reserve_buffer_bps: 545, release_rate_bps: 3660, note: "stabilizer high buffer band" });
    out.push(CalibrationProfile { code: "CRN-069", tier: "retail", day_floor: 51, day_ceiling: 53, priority_capacity: 480, standard_capacity: 1040, user_ceiling: 290, reserve_buffer_bps: 735, release_rate_bps: 2435, note: "retail low release band" });
    out.push(CalibrationProfile { code: "CRN-070", tier: "vip", day_floor: 51, day_ceiling: 53, priority_capacity: 980, standard_capacity: 1540, user_ceiling: 680, reserve_buffer_bps: 655, release_rate_bps: 2885, note: "vip low release band" });
    out.push(CalibrationProfile { code: "CRN-071", tier: "institutional", day_floor: 51, day_ceiling: 53, priority_capacity: 1560, standard_capacity: 2320, user_ceiling: 1100, reserve_buffer_bps: 595, release_rate_bps: 3335, note: "institutional low release band" });
    out.push(CalibrationProfile { code: "CRN-072", tier: "stabilizer", day_floor: 51, day_ceiling: 53, priority_capacity: 1880, standard_capacity: 2720, user_ceiling: 1280, reserve_buffer_bps: 555, release_rate_bps: 3635, note: "stabilizer low release band" });
    out.push(CalibrationProfile { code: "CRN-073", tier: "retail", day_floor: 54, day_ceiling: 56, priority_capacity: 440, standard_capacity: 1000, user_ceiling: 270, reserve_buffer_bps: 745, release_rate_bps: 2410, note: "retail stress entry" });
    out.push(CalibrationProfile { code: "CRN-074", tier: "vip", day_floor: 54, day_ceiling: 56, priority_capacity: 920, standard_capacity: 1460, user_ceiling: 640, reserve_buffer_bps: 665, release_rate_bps: 2860, note: "vip stress entry" });
    out.push(CalibrationProfile { code: "CRN-075", tier: "institutional", day_floor: 54, day_ceiling: 56, priority_capacity: 1500, standard_capacity: 2240, user_ceiling: 1060, reserve_buffer_bps: 605, release_rate_bps: 3310, note: "institutional stress entry" });
    out.push(CalibrationProfile { code: "CRN-076", tier: "stabilizer", day_floor: 54, day_ceiling: 56, priority_capacity: 1820, standard_capacity: 2640, user_ceiling: 1240, reserve_buffer_bps: 565, release_rate_bps: 3610, note: "stabilizer stress entry" });
    out.push(CalibrationProfile { code: "CRN-077", tier: "retail", day_floor: 57, day_ceiling: 59, priority_capacity: 400, standard_capacity: 960, user_ceiling: 250, reserve_buffer_bps: 755, release_rate_bps: 2385, note: "retail stress close" });
    out.push(CalibrationProfile { code: "CRN-078", tier: "vip", day_floor: 57, day_ceiling: 59, priority_capacity: 860, standard_capacity: 1380, user_ceiling: 600, reserve_buffer_bps: 675, release_rate_bps: 2835, note: "vip stress close" });
    out.push(CalibrationProfile { code: "CRN-079", tier: "institutional", day_floor: 57, day_ceiling: 59, priority_capacity: 1440, standard_capacity: 2160, user_ceiling: 1020, reserve_buffer_bps: 615, release_rate_bps: 3285, note: "institutional stress close" });
    out.push(CalibrationProfile { code: "CRN-080", tier: "stabilizer", day_floor: 57, day_ceiling: 59, priority_capacity: 1760, standard_capacity: 2560, user_ceiling: 1200, reserve_buffer_bps: 575, release_rate_bps: 3585, note: "stabilizer stress close" });
    proof {
        assert(out@ =~= catalog());
    }
    out
}

/// The profiles of `s` that satisfy `keep`, in order.
pub open spec fn kept(s: Seq<CalibrationProfile>, keep: spec_fn(CalibrationProfile) -> bool) -> Seq<
    CalibrationProfile,
>
    decreases s.len(),
{
    if s.len() == 0 {
        Seq::empty()
    } else if keep(s.last()) {
        kept(s.drop_last(), keep).push(s.last())
    } else {
        kept(s.drop_last(), keep)
    }
}

/// `a` ranks no higher than `b`, comparing ranks lexicographically.
pub open spec fn rank_le(a: CalibrationProfile, b: CalibrationProfile) -> bool {
    let (a0, a1, a2) = a.rank();
    let (b0, b1, b2) = b.rank();
    a0 < b0 || (a0 == b0 && (a1 < b1 || (a1 == b1 && a2 <= b2)))
}

/// The profile of highest rank in `s`, the last one among equals; `None`
/// for no profile.
pub open spec fn best_of(s: Seq<CalibrationProfile>) -> Option<CalibrationProfile>
    decreases s.len(),
{
    if s.len() == 0 {
        None
    } else {
        match best_of(s.drop_last()) {
            None => Some(s.last()),
            Some(b) => if rank_le(b, s.last()) { Some(s.last()) } else { Some(b) },
        }
    }
}

/// The priority capacities of the profiles of `s` that cover `day`.
pub open spec fn priority_sum(s: Seq<CalibrationProfile>, day: u64) -> nat
    decreases s.len(),
{
    if s.len() == 0 {
        0
    } else {
        priority_sum(s.drop_last(), day) + if s.last().spec_covers_day(day) { s.last().priority_capacity as nat } else { 0 }
    }
}

/// The standard capacities of the profiles of `s` that cover `day`.
pub open spec fn standard_sum(s: Seq<CalibrationProfile>, day: u64) -> nat
    decreases s.len(),
{
    if s.len() == 0 {
        0
    } else {
        standard_sum(s.drop_last(), day) + if s.last().spec_covers_day(day) { s.last().standard_capacity as nat } else { 0 }
    }
}

/// The priority capacities of all the profiles of `s`.
pub open spec fn priority_total(s: Seq<CalibrationProfile>) -> nat
    decreases s.len(),
{
    if s.len() == 0 { 0 } else { priority_total(s.drop_last()) + s.last().priority_capacity as nat }
}

/// The standard capacities of all the profiles of `s`.
pub open spec fn standard_total(s: Seq<CalibrationProfile>) -> nat
    decreases s.len(),
{
    if s.len() == 0 { 0 } else { standard_total(s.drop_last()) + s.last().standard_capacity as nat }
}

/// The capacity counted for a day is that of exactly the profiles whose
/// range of days, both ends included, holds the day.
pub proof fn law_sums_count_covering_profiles(s: Seq<CalibrationProfile>, day: u64)
    ensures
        priority_sum(s, day) == priority_total(kept(s, |p: CalibrationProfile| p.day_floor <= day && day <= p.day_ceiling)),
        standard_sum(s, day) == standard_total(kept(s, |p: CalibrationProfile| p.day_floor <= day && day <= p.day_ceiling)),
    decreases s.len(),
{
    if s.len() > 0 {
        law_sums_count_covering_profiles(s.drop_last(), day);
        let k = kept(s.drop_last(), |p: CalibrationProfile| p.day_floor <= day && day <= p.day_ceiling);
        assert(k.push(s.last()).drop_last() =~= k);
    }
}

/// `n`, or the largest `u64` when it does not fit.
pub open spec fn capped(n: nat) -> nat {
    if n > u64::MAX { u64::MAX as nat } else { n }
}

/// The first profile of the catalog whose code is `code`, ignoring ASCII
/// case.
pub fn profile_by_code(code: &str) -> (r: Option<CalibrationProfile>)
    ensures
        r matches Some(p) ==> exists|i: int| 0 <= i < catalog().len() && catalog()[i] == p
            && lower(p.code@) == lower(code@)
            && forall|j: int| 0 <= j < i ==> lower((#[trigger] catalog()[j]).code@) != lower(code@),
        r is None ==> forall|i: int| 0 <= i < catalog().len() ==> lower((#[trigger] catalog()[i]).code@) != lower(code@),
{
    let all = profile_catalog();
    let mut i: usize = 0;
    while i < all.len()
        invariant
            all@ == catalog(),
            i <= all.len(),
            forall|j: int| 0 <= j < i ==> lower((#[trigger] catalog()[j]).code@) != lower(code@),
        decreases all.len() - i,
    {
        let p = all[i];
        if eq_ignore_case(p.code, code) {
            return Some(p);
        }
        i = i + 1;
    }
    None
}

/// The profiles of the catalog for `tier`, ignoring ASCII case, in code
/// order.
pub fn profiles_for_tier(tier: &str) -> (r: Vec<CalibrationProfile>)
    ensures
        r@ == kept(catalog(), |p: CalibrationProfile| p.spec_matches_tier(tier@)),
{
    let all = profile_catalog();
    let ghost keep = |p: CalibrationProfile| p.spec_matches_tier(tier@);
    let mut out: Vec<CalibrationProfile> = Vec::new();
    let mut i: usize = 0;
    while i < all.len()
        invariant
            all@ == catalog(),
            i <= all.len(),
            keep == (|p: CalibrationProfile| p.spec_matches_tier(tier@)),
            out@ == kept(all@.take(i as int), keep),
        decreases all.len() - i,
    {
        let p = all[i];
        proof {
            assert(all@.take(i as int + 1).drop_last() =~= all@.take(i as int));
        }
        if p.matches_tier(tier) {
            out.push(p);
        }
        i = i + 1;
    }
    proof {
        assert(all@.take(all@.len() as int) =~= all@);
    }
    out
}

/// The profiles of the catalog whose range of days holds `day`, in code
/// order.
pub fn profiles_for_day(day: u64) -> (r: Vec<CalibrationProfile>)
    ensures
        r@ == kept(catalog(), |p: CalibrationProfile| p.spec_covers_day(day)),
        r@ == kept(catalog(), |p: CalibrationProfile| p.day_floor <= day && day <= p.day_ceiling),
{
    let all = profile_catalog();
    let ghost keep = |p: CalibrationProfile| p.spec_covers_day(day);
    let mut out: Vec<CalibrationProfile> = Vec::new();
    let mut i: usize = 0;
    while i < all.len()
        invariant
            all@ == catalog(),
            i <= all.len(),
            keep == (|p: CalibrationProfile| p.spec_covers_day(day)),
            out@ == kept(all@.take(i as int), keep),
        decreases all.len() - i,
    {
        let p = all[i];
        proof {
            assert(all@.take(i as int + 1).drop_last() =~= all@.take(i as int));
        }
        if p.covers_day(day) {
            out.push(p);
        }
        i = i + 1;
    }
    proof {
        assert(all@.take(all@.len() as int) =~= all@);
        assert(keep =~= (|p: CalibrationProfile| p.day_floor <= day && day <= p.day_ceiling));
    }
    out
}

/// Whether `a` ranks no higher than `b`.
fn ranks_at_most(a: CalibrationProfile, b: CalibrationProfile) -> (r: bool)
    ensures
        r == rank_le(a, b),
{
    let a2 = 10_000u32.saturating_sub(a.reserve_buffer_bps);
    let b2 = 10_000u32.saturating_sub(b.reserve_buffer_bps);
    a.priority_capacity < b.priority_capacity || (a.priority_capacity == b.priority_capacity && (a.standard_capacity
        < b.standard_capacity || (a.standard_capacity == b.standard_capacity && a2 <= b2)))
}

/// The profile of highest rank among those of the catalog for `tier` that
/// cover `day`, the last in code order among equals; `None` when there is
/// none.
pub fn recommended_profile(tier: &str, day: u64) -> (r: Option<CalibrationProfile>)
    ensures
        r == best_of(kept(catalog(), |p: CalibrationProfile| p.spec_matches_tier(tier@) && p.spec_covers_day(day))),
{
    let all = profile_catalog();
    let ghost keep = |p: CalibrationProfile| p.spec_matches_tier(tier@) && p.spec_covers_day(day);
    let mut best: Option<CalibrationProfile> = None;
    let mut i: usize = 0;
    while i < all.len()
        invariant
            all@ == catalog(),
            i <= all.len(),
            keep == (|p: CalibrationProfile| p.spec_matches_tier(tier@) && p.spec_covers_day(day)),
            best == best_of(kept(all@.take(i as int), keep)),
        decreases all.len() - i,
    {
        let p = all[i];
        proof {
            assert(all@.take(i as int + 1).drop_last() =~= all@.take(i as int));
        }
        if p.matches_tier(tier) && p.covers_day(day) {
            proof {
                let k = kept(all@.take(i as int), keep);
                assert(kept(all@.take(i as int + 1), keep) == k.push(p));
                assert(k.push(p).drop_last() =~= k);
            }
            match best {
                None => {
                    best = Some(p);
                },
                Some(b) => {
                    if ranks_at_most(b, p) {
                        best = Some(p);
                    }
                },
            }
        }
        i = i + 1;
    }
    proof {
        assert(all@.take(all@.len() as int) =~= all@);
    }
    best
}

/// The priority capacity of the catalog's profiles that cover `day`, the
/// sum saturating at the largest `u64`.
pub fn total_priority_for_day(day: u64) -> (r: Amount)
    ensures
        r@ == capped(priority_sum(catalog(), day)),
        r@ == capped(priority_total(kept(catalog(), |p: CalibrationProfile| p.day_floor <= day && day <= p.day_ceiling))),
{
    proof { law_sums_count_covering_profiles(catalog(), day); }
    let all = profile_catalog();
    let mut total: u64 = 0;
    let mut i: usize = 0;
    while i < all.len()
        invariant
            all@ == catalog(),
            i <= all.len(),
            total == capped(priority_sum(all@.take(i as int), day)),
        decreases all.len() - i,
    {
        let p = all[i];
        proof {
            assert(all@.take(i as int + 1).drop_last() =~= all@.take(i as int));
        }
        if p.covers_day(day) {
            total = total.saturating_add(p.priority_capacity);
        }
        i = i + 1;
    }
    proof {
        assert(all@.take(all@.len() as int) =~= all@);
    }
    Amount::from_u64(total)
}

/// The standard capacity of the catalog's profiles that cover `day`, the
/// sum saturating at the largest `u64`.
pub fn total_standard_for_day(day: u64) -> (r: Amount)
    ensures
        r@ == capped(standard_sum(catalog(), day)),
        r@ == capped(standard_total(kept(catalog(), |p: CalibrationProfile| p.day_floor <= day && day <= p.day_ceiling))),
{
    proof { law_sums_count_covering_profiles(catalog(), day); }
    let all = profile_catalog();
    let mut total: u64 = 0;
    let mut i: usize = 0;
    while i < all.len()
        invariant
            all@ == catalog(),
            i <= all.len(),
            total == capped(standard_sum(all@.take(i as int), day)),
        decreases all.len() - i,
    {
        let p = all[i];
        proof {
            assert(all@.take(i as int + 1).drop_last() =~= all@.take(i as int));
        }
        if p.covers_day(day) {
            total = total.saturating_add(p.standard_capacity);
        }
        i = i + 1;
    }
    proof {
        assert(all@.take(all@.len() as int) =~= all@);
    }
    Amount::from_u64(total)
}

} // verus!
