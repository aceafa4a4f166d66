use crown_dtl::amount::SignedAmount;
use crown_dtl::Amount;

#[test]
fn bps_rounds_down() {
    assert_eq!(
        Amount::from(10_001_u64).checked_mul_bps(100).unwrap().raw(),
        100
    );
}

#[test]
fn signed_delta_applies() {
    let base = Amount::from(100_u64);
    assert_eq!(
        SignedAmount::positive(Amount::from(5_u64))
            .apply_to(base)
            .unwrap()
            .raw(),
        105
    );
    assert_eq!(
        SignedAmount::negative(Amount::from(5_u64))
            .apply_to(base)
            .unwrap()
            .raw(),
        95
    );
}

#[test]
fn negative_delta_below_zero_is_refused() {
    let err = SignedAmount::negative(Amount::from(6_u64))
        .apply_to(Amount::from(5_u64))
        .unwrap_err();
    assert_eq!(err.code(), "arithmetic");
}

#[test]
fn addition_overflow_is_refused() {
    let err = Amount::new(u128::MAX).checked_add(Amount::from(1_u64)).unwrap_err();
    assert_eq!(err.code(), "arithmetic");
}

#[test]
fn subtraction_underflow_is_refused() {
    let err = Amount::from(1_u64).checked_sub(Amount::from(2_u64)).unwrap_err();
    assert_eq!(err.code(), "arithmetic");
}

#[test]
fn zero_amount_is_refused_where_required() {
    let err = Amount::from(0_u64).non_zero("mint shares").unwrap_err();
    assert_eq!(err.code(), "invalid_amount");
    assert_eq!(Amount::from(7_u64).non_zero("mint shares").unwrap().raw(), 7);
}

#[test]
fn amount_text_is_decimal() {
    assert_eq!(Amount::from(1_250_u64).to_text(), "1250");
    assert_eq!(Amount::from(0_u64).to_text(), "0");
}

#[test]
fn zero_change_is_the_positive_zero() {
    let zero = SignedAmount::zero();
    assert_eq!(zero, SignedAmount::positive(Amount::from(0_u64)));
    assert_ne!(zero, SignedAmount::negative(Amount::from(0_u64)));
    assert!(!zero.is_negative());
    assert_eq!(zero.magnitude().raw(), 0);
}
