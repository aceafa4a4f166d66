use vstd::prelude::*;
use crate::error::{CrownError, CrownResult};
use crate::text::{decimal, decimal_string, push_char};

verus! {

/// A non-negative token quantity in the smallest unit.
#[derive(Debug, Clone, Copy, PartialEq, Eq, Structural, PartialOrd, Ord, Hash)]
pub struct Amount(u128);

/// A fee or share expressed in hundredths of a percent.
pub type BasisPoints = u32;

/// An exchange rate `numerator / denominator` with a non-zero denominator.
#[derive(Debug, Clone, Copy, PartialEq, Eq, Structural)]
pub struct Rate {
    numerator: u128,
    denominator: u128,
}

impl View for Amount {
    type V = nat;

    closed spec fn view(&self) -> nat {
        self.0 as nat
    }
}

/// The largest representable amount.
pub open spec fn amount_max() -> nat {
    u128::MAX as nat
}

/// Ten to the power `d`.
pub open spec fn pow10(d: nat) -> nat
    decreases d,
{
    if d == 0 { 1 } else { 10 * pow10((d - 1) as nat) }
}

/// `n` zero characters.
pub open spec fn zeros(n: nat) -> Seq<char> {
    Seq::new(n, |i: int| '0')
}

/// `s` left-padded with zeros to at least `width` characters.
pub open spec fn pad_zeros(s: Seq<char>, width: nat) -> Seq<char> {
    if s.len() >= width { s } else { zeros((width - s.len()) as nat) + s }
}

/// `s` without trailing zeros, always keeping at least one character.
pub open spec fn strip_zeros(s: Seq<char>) -> Seq<char>
    decreases s.len(),
{
    if s.len() > 1 && s.last() == '0' { strip_zeros(s.drop_last()) } else { s }
}

/// The text of `value` as a decimal number with `decimals` fractional digits,
/// trailing fractional zeros removed (one digit is always kept).
pub open spec fn units_text(value: nat, decimals: nat) -> Seq<char> {
    if decimals == 0 {
        decimal(value)
    } else {
        decimal(value / pow10(decimals)) + "."@ + strip_zeros(
            pad_zeros(decimal(value % pow10(decimals)), decimals),
        )
    }
}

/// Sum of a sequence of amounts, as a mathematical integer.
pub open spec fn sum_amounts(s: Seq<Amount>) -> nat
    decreases s.len(),
{
    if s.len() == 0 { 0 } else { sum_amounts(s.drop_last()) + s.last()@ }
}

proof fn lemma_pow10_positive(d: nat)
    ensures
        pow10(d) >= 1,
    decreases d,
{
    if d > 0 {
        lemma_pow10_positive((d - 1) as nat);
    }
}

proof fn lemma_decimal_len(n: nat)
    ensures
        decimal(n).len() >= 1,
        n >= 10 ==> decimal(n) == decimal(n / 10).push(crate::text::digit_char((n % 10) as int)),
        n < 10 ==> decimal(n) == seq![crate::text::digit_char(n as int)],
    decreases n,
{
    if n >= 10 {
        lemma_decimal_len(n / 10);
    }
}

/// Removing one trailing zero digit of the fraction is the same as one step
/// of `strip_zeros` on the padded text.
proof fn lemma_decimal_len_bound(n: nat, d: nat)
    requires
        d >= 1,
        n < pow10(d),
    ensures
        decimal(n).len() <= d,
    decreases n,
{
    lemma_decimal_len(n);
    if n >= 10 {
        assert(d >= 2) by {
            if d == 1 {
                assert(pow10(1) == 10 * pow10(0));
            }
        }
        assert(pow10(d) == 10 * pow10((d - 1) as nat));
        assert(n / 10 < pow10((d - 1) as nat));
        lemma_decimal_len_bound(n / 10, (d - 1) as nat);
    }
}

proof fn lemma_strip_step(f: nat, d: nat)
    requires
        d >= 1,
        f < pow10(d),
    ensures
        d > 1 && f % 10 == 0 ==> strip_zeros(pad_zeros(decimal(f), d)) == strip_zeros(
            pad_zeros(decimal(f / 10), (d - 1) as nat),
        ) && f / 10 < pow10((d - 1) as nat),
        !(d > 1 && f % 10 == 0) ==> strip_zeros(pad_zeros(decimal(f), d)) == pad_zeros(
            decimal(f),
            d,
        ),
{
    lemma_decimal_len(f);
    lemma_decimal_len(f / 10);
    lemma_decimal_len_bound(f, d);
    if d > 1 {
        assert(pow10(d) == 10 * pow10((d - 1) as nat));
    }
    let p = pad_zeros(decimal(f), d);
    assert(p.len() >= d);
    assert(p.last() == crate::text::digit_char((f % 10) as int)) by {
        if f >= 10 {
            assert(decimal(f).last() == crate::text::digit_char((f % 10) as int));
        } else {
            assert(f % 10 == f);
        }
    }
    if d > 1 && f % 10 == 0 {
        let q = pad_zeros(decimal(f / 10), (d - 1) as nat);
        if f >= 10 {
            let s = decimal(f / 10);
            assert(decimal(f) == s.push('0'));
            if s.len() + 1 >= d {
                assert(p == s.push('0'));
                assert(q == s);
            } else {
                assert(p =~= zeros((d - s.len() - 1) as nat) + s.push('0'));
                assert(q =~= zeros((d - 1 - s.len()) as nat) + s);
            }
            assert(p.drop_last() =~= q);
        } else {
            assert(f == 0);
            assert(decimal(0) == seq!['0']);
            assert(p =~= zeros((d - 1) as nat) + seq!['0']);
            assert(q =~= pad_zeros(seq!['0'], (d - 1) as nat));
            assert(p.drop_last() =~= q);
        }
        assert(strip_zeros(p) == strip_zeros(p.drop_last()));
    } else {
        if d > 1 {
            assert(p.last() != '0') by {
                let r = (f % 10) as int;
                assert(r != 0);
            }
        }
    }
}

impl Amount {
    pub fn new(value: u128) -> (r: Self)
        ensures
            r@ == value,
            r == Amount::spec_new(value),
    {
        Amount(value)
    }

    pub fn from_u64(value: u64) -> (r: Self)
        ensures
            r@ == value,
    {
        Amount(value as u128)
    }

    pub fn raw(self) -> (r: u128)
        ensures
            r == self@,
    {
        self.0
    }

    pub fn is_zero(self) -> (r: bool)
        ensures
            r == (self@ == 0),
    {
        self.0 == 0
    }

    /// Fails with `InvalidAmount("{label} must be non-zero")` exactly when the
    /// amount is zero.
    pub fn non_zero(self, label: &str) -> (r: CrownResult<Self>)
        ensures
            self@ != 0 ==> r == Ok::<Amount, CrownError>(self),
            self@ == 0 ==> (r matches Err(e) && e is InvalidAmount && e.spec_detail() == label@
                + " must be non-zero"@),
    {
        if self.is_zero() {
            let msg = String::from_str(label).concat(" must be non-zero");
            Err(CrownError::InvalidAmount(msg))
        } else {
            Ok(self)
        }
    }

    pub fn checked_add(self, rhs: Amount) -> (r: CrownResult<Amount>)
        ensures
            self@ + rhs@ <= amount_max() ==> (r matches Ok(a) && a@ == self@ + rhs@),
            self@ + rhs@ > amount_max() ==> (r matches Err(e) && e is Arithmetic
                && e.spec_detail() == "amount addition overflow"@),
    {
        match self.0.checked_add(rhs.0) {
            Some(v) => Ok(Amount(v)),
            None => Err(CrownError::arithmetic("amount addition overflow")),
        }
    }

    pub fn checked_sub(self, rhs: Amount) -> (r: CrownResult<Amount>)
        ensures
            rhs@ <= self@ ==> (r matches Ok(a) && a@ == self@ - rhs@),
            rhs@ > self@ ==> (r matches Err(e) && e is Arithmetic
                && e.spec_detail() == "amount subtraction underflow"@),
    {
        match self.0.checked_sub(rhs.0) {
            Some(v) => Ok(Amount(v)),
            None => Err(CrownError::arithmetic("amount subtraction underflow")),
        }
    }

    pub fn checked_mul(self, rhs: u128) -> (r: CrownResult<Amount>)
        ensures
            self@ * rhs <= amount_max() ==> (r matches Ok(a) && a@ == self@ * rhs),
            self@ * rhs > amount_max() ==> (r matches Err(e) && e is Arithmetic
                && e.spec_detail() == "amount multiplication overflow"@),
    {
        match self.0.checked_mul(rhs) {
            Some(v) => Ok(Amount(v)),
            None => Err(CrownError::arithmetic("amount multiplication overflow")),
        }
    }

    pub fn checked_div(self, rhs: u128) -> (r: CrownResult<Amount>)
        ensures
            rhs != 0 ==> (r matches Ok(a) && a@ == self@ / (rhs as nat)),
            rhs == 0 ==> (r matches Err(e) && e is Arithmetic && e.spec_detail()
                == "division by zero"@),
    {
        if rhs == 0 {
            return Err(CrownError::arithmetic("division by zero"));
        }
        Ok(Amount(self.0 / rhs))
    }

    /// `self * bps / 10_000`, rounded down.
    pub fn checked_mul_bps(self, bps: BasisPoints) -> (r: CrownResult<Amount>)
        ensures
            self@ * bps <= amount_max() ==> (r matches Ok(a) && a@ == (self@ * bps) / 10_000),
            self@ * bps > amount_max() ==> (r matches Err(e) && e is Arithmetic && e.spec_detail()
                == "amount multiplication overflow"@),
    {
        let scaled = self.checked_mul(bps as u128)?;
        scaled.checked_div(10_000)
    }

    /// `self * numerator / denominator`, rounded down.
    pub fn checked_mul_rate(self, rate: Rate) -> (r: CrownResult<Amount>)
        ensures
            rate.den() != 0 && self@ * rate.num() <= amount_max() ==> (r matches Ok(a) && a@ == (
            self@ * rate.num()) / rate.den()),
            rate.den() == 0 ==> (r matches Err(e) && e is Arithmetic && e.spec_detail()
                == "rate denominator is zero"@),
            rate.den() != 0 && self@ * rate.num() > amount_max() ==> (r matches Err(e) && e is Arithmetic
                && e.spec_detail() == "amount multiplication overflow"@),
    {
        if rate.denominator == 0 {
            return Err(CrownError::arithmetic("rate denominator is zero"));
        }
        let scaled = self.checked_mul(rate.numerator)?;
        scaled.checked_div(rate.denominator)
    }

    pub fn saturating_add(self, rhs: Amount) -> (r: Amount)
        ensures
            r@ == if self@ + rhs@ > amount_max() { amount_max() } else { self@ + rhs@ },
    {
        Amount(self.0.saturating_add(rhs.0))
    }

    pub fn saturating_sub(self, rhs: Amount) -> (r: Amount)
        ensures
            r@ == if rhs@ > self@ { 0 } else { (self@ - rhs@) as nat },
    {
        Amount(self.0.saturating_sub(rhs.0))
    }

    pub fn min(self, rhs: Amount) -> (r: Amount)
        ensures
            r == if self@ <= rhs@ { self } else { rhs },
    {
        if self.0 <= rhs.0 {
            self
        } else {
            rhs
        }
    }

    pub fn max(self, rhs: Amount) -> (r: Amount)
        ensures
            r == if self@ >= rhs@ { self } else { rhs },
    {
        if self.0 >= rhs.0 {
            self
        } else {
            rhs
        }
    }

    pub fn as_u64(self) -> (r: CrownResult<u64>)
        ensures
            self@ <= u64::MAX ==> (r matches Ok(v) && v == self@),
            self@ > u64::MAX ==> (r matches Err(e) && e is Arithmetic && e.spec_detail()
                == "amount does not fit u64"@),
    {
        if self.0 <= 0xffff_ffff_ffff_ffffu128 {
            Ok(self.0 as u64)
        } else {
            Err(CrownError::arithmetic("amount does not fit u64"))
        }
    }

    /// The decimal text of the amount.
    pub fn to_text(self) -> (r: String)
        ensures
            r@ == decimal(self@),
    {
        decimal_string(self.0)
    }

    /// The amount written with `decimals` fractional digits, trailing
    /// fractional zeros removed.
    pub fn format_units(self, decimals: u8) -> (r: String)
        requires
            decimals <= 38,
        ensures
            r@ == units_text(self@, decimals as nat),
    {
        if decimals == 0 {
            return decimal_string(self.0);
        }
        let mut scale: u128 = 1;
        let mut i: u8 = 0;
        while i < decimals
            invariant
                i <= decimals <= 38,
                scale == pow10(i as nat),
            decreases decimals - i,
        {
            proof { lemma_pow10_bound(i as nat); }
            scale = scale * 10;
            i = i + 1;
        }
        proof { lemma_pow10_positive(decimals as nat); }
        let whole = self.0 / scale;
        let mut fraction = self.0 % scale;
        let mut width: u8 = decimals;
        while width > 1 && fraction % 10 == 0
            invariant
                1 <= width <= decimals,
                fraction < pow10(width as nat),
                strip_zeros(pad_zeros(decimal(fraction as nat), width as nat)) == strip_zeros(
                    pad_zeros(decimal((self@ % pow10(decimals as nat)) as nat), decimals as nat),
                ),
            decreases width,
        {
            proof { lemma_strip_step(fraction as nat, width as nat); }
            fraction = fraction / 10;
            width = width - 1;
        }
        proof { lemma_strip_step(fraction as nat, width as nat); }
        let digits = decimal_string(fraction);
        let mut out = decimal_string(whole);
        push_char(&mut out, '.');
        proof {
            reveal_strlit(".");
            assert(zeros(0) =~= Seq::<char>::empty());
            assert(out@ =~= decimal(whole as nat) + "."@ + zeros(0));
        }
        let mut pad: usize = digits.unicode_len();
        while pad < width as usize
            invariant
                digits@ == decimal(fraction as nat),
                out@ == decimal(whole as nat) + "."@ + zeros((pad - digits@.len()) as nat),
                digits@.len() <= pad <= (if width as nat > digits@.len() { width as nat } else { digits@.len() }),
            decreases width as usize - pad,
        {
            push_char(&mut out, '0');
            proof {
                assert(zeros((pad - digits@.len()) as nat).push('0') =~= zeros((pad + 1 - digits@.len()) as nat));
            }
            pad = pad + 1;
        }
        out.append(digits.as_str());
        proof {
            reveal_strlit(".");
            assert(out@ =~= units_text(self@, decimals as nat));
        }
        out
    }

    /// Sum of all amounts, failing if any partial sum overflows.
    pub fn checked_sum(values: &[Amount]) -> (r: CrownResult<Amount>)
        ensures
            sum_amounts(values@) <= amount_max() ==> (r matches Ok(a) && a@ == sum_amounts(values@)),
            sum_amounts(values@) > amount_max() ==> (r matches Err(e) && e is Arithmetic && e.spec_detail()
                == "amount addition overflow"@),
    {
        let mut total = Amount(0);
        let mut i: usize = 0;
        while i < values.len()
            invariant
                i <= values@.len(),
                total@ == sum_amounts(values@.take(i as int)),
            decreases values@.len() - i,
        {
            assert(values@.take(i as int + 1).drop_last() =~= values@.take(i as int));
            match total.checked_add(values[i]) {
                Ok(t) => {
                    total = t;
                },
                Err(e) => {
                    proof { lemma_sum_prefix_le(values@, i as int + 1); }
                    return Err(e);
                },
            }
            i = i + 1;
        }
        assert(values@.take(values@.len() as int) =~= values@);
        Ok(total)
    }
}

proof fn lemma_pow10_bound(i: nat)
    requires
        i < 38,
    ensures
        pow10(i) * 10 <= u128::MAX,
        pow10(i + 1) == pow10(i) * 10,
    decreases i,
{
    if i > 0 {
        lemma_pow10_bound((i - 1) as nat);
    }
    assert(pow10(38) == 100000000000000000000000000000000000000) by {
        reveal_with_fuel(pow10, 39);
    }
    lemma_pow10_mono(i + 1, 38);
}

proof fn lemma_pow10_mono(a: nat, b: nat)
    requires
        a <= b,
    ensures
        pow10(a) <= pow10(b),
    decreases b,
{
    if a < b {
        lemma_pow10_mono(a, (b - 1) as nat);
        lemma_pow10_positive((b - 1) as nat);
    }
}

/// A prefix sum never exceeds the full sum.
pub proof fn lemma_sum_prefix_le(s: Seq<Amount>, k: int)
    requires
        0 <= k <= s.len(),
    ensures
        sum_amounts(s.take(k)) <= sum_amounts(s),
    decreases s.len(),
{
    if k < s.len() {
        assert(s.drop_last().take(k) =~= s.take(k));
        lemma_sum_prefix_le(s.drop_last(), k);
    } else {
        assert(s.take(k) =~= s);
    }
}

impl Rate {
    pub closed spec fn num(self) -> nat {
        self.numerator as nat
    }

    pub closed spec fn den(self) -> nat {
        self.denominator as nat
    }

    pub fn new(numerator: u128, denominator: u128) -> (r: CrownResult<Self>)
        ensures
            denominator != 0 ==> (r matches Ok(rate) && rate.num() == numerator && rate.den()
                == denominator),
            denominator == 0 ==> (r matches Err(e) && e is Arithmetic && e.spec_detail()
                == "rate denominator is zero"@),
    {
        if denominator == 0 {
            return Err(CrownError::arithmetic("rate denominator is zero"));
        }
        Ok(Rate { numerator, denominator })
    }

    pub fn one() -> (r: Self)
        ensures
            r.num() == 1,
            r.den() == 1,
    {
        Rate { numerator: 1, denominator: 1 }
    }

    pub fn numerator(self) -> (r: u128)
        ensures
            r == self.num(),
    {
        self.numerator
    }

    pub fn denominator(self) -> (r: u128)
        ensures
            r == self.den(),
    {
        self.denominator
    }
}

impl Default for Amount {
    fn default() -> (r: Self)
        ensures
            r@ == 0,
    {
        Amount(0)
    }
}

impl From<u64> for Amount {
    fn from(value: u64) -> (r: Self) {
        Amount(value as u128)
    }
}

impl vstd::std_specs::convert::FromSpecImpl<u64> for Amount {
    open spec fn obeys_from_spec() -> bool {
        true
    }

    open spec fn from_spec(v: u64) -> Self {
        Amount::spec_new(v as u128)
    }
}

impl From<u128> for Amount {
    fn from(value: u128) -> (r: Self) {
        Amount(value)
    }
}

impl vstd::std_specs::convert::FromSpecImpl<u128> for Amount {
    open spec fn obeys_from_spec() -> bool {
        true
    }

    open spec fn from_spec(v: u128) -> Self {
        Amount::spec_new(v)
    }
}

impl Amount {
    /// The amount holding `v` units.
    pub closed spec fn spec_new(v: u128) -> Amount {
        Amount(v)
    }

}

/// The amount built from `v` holds `v` units.
pub broadcast proof fn lemma_spec_new(v: u128)
    ensures
        #[trigger] Amount::spec_new(v)@ == v,
{
}

/// An amount is rebuilt from its quantity.
pub broadcast proof fn lemma_spec_new_roundtrip(a: Amount)
    ensures
        #[trigger] Amount::spec_new(a@ as u128) == a,
{
}

/// Every amount fits the representation.
pub broadcast proof fn lemma_amount_bound(a: Amount)
    ensures
        #[trigger] a@ <= amount_max(),
{
}

pub broadcast group group_amount {
    lemma_amount_bound,
    lemma_spec_new,
    lemma_spec_new_roundtrip,
}

/// A signed change to an amount.
#[derive(Debug, Clone, Copy, PartialEq, Eq, Structural)]
pub struct SignedAmount {
    magnitude: Amount,
    negative: bool,
}

impl SignedAmount {
    pub closed spec fn spec_magnitude(self) -> Amount {
        self.magnitude
    }

    /// The change counts as a decrease (a negative zero does not).
    pub closed spec fn spec_is_negative(self) -> bool {
        self.negative && self.magnitude@ != 0
    }

    /// The sign the change was made with, which `==` tells apart even on a
    /// zero magnitude.
    pub closed spec fn spec_signed_negative(self) -> bool {
        self.negative
    }

    pub fn positive(value: Amount) -> (r: Self)
        ensures
            r.spec_magnitude() == value,
            !r.spec_is_negative(),
            !r.spec_signed_negative(),
    {
        SignedAmount { magnitude: value, negative: false }
    }

    pub fn negative(value: Amount) -> (r: Self)
        ensures
            r.spec_magnitude() == value,
            r.spec_is_negative() == (value@ != 0),
            r.spec_signed_negative(),
    {
        SignedAmount { magnitude: value, negative: true }
    }

    pub fn zero() -> (r: Self)
        ensures
            r.spec_magnitude()@ == 0,
            !r.spec_is_negative(),
            !r.spec_signed_negative(),
    {
        Self::positive(Amount(0))
    }

    pub fn magnitude(self) -> (r: Amount)
        ensures
            r == self.spec_magnitude(),
    {
        self.magnitude
    }

    pub fn is_negative(self) -> (r: bool)
        ensures
            r == self.spec_is_negative(),
    {
        self.negative && !self.magnitude.is_zero()
    }

    /// Applies the change: subtracts the magnitude for a decrease, adds it
    /// otherwise; fails with `Arithmetic` when the result leaves the range.
    pub fn apply_to(self, value: Amount) -> (r: CrownResult<Amount>)
        ensures
            self.spec_is_negative() && self.spec_magnitude()@ <= value@ ==> (r matches Ok(a) && a@
                == value@ - self.spec_magnitude()@),
            self.spec_is_negative() && self.spec_magnitude()@ > value@ ==> (r matches Err(e)
                && e is Arithmetic && e.spec_detail() == "amount subtraction underflow"@),
            !self.spec_is_negative() && value@ + self.spec_magnitude()@ <= amount_max() ==> (r matches Ok(a)
                && a@ == value@ + self.spec_magnitude()@),
            !self.spec_is_negative() && value@ + self.spec_magnitude()@ > amount_max() ==> (r matches Err(e)
                && e is Arithmetic && e.spec_detail() == "amount addition overflow"@),
    {
        if self.is_negative() {
            value.checked_sub(self.magnitude)
        } else {
            value.checked_add(self.magnitude)
        }
    }
}

} // verus!
