use crown_dtl::calibration::{
    profile_by_code, profile_catalog, profiles_for_day, profiles_for_tier, recommended_profile,
    total_priority_for_day, total_standard_for_day,
};

#[test]
fn catalog_holds_eighty_profiles() {
    let all = profile_catalog();
    assert_eq!(all.len(), 80);
    assert_eq!(all[0].code, "CRN-001");
    assert_eq!(all[79].code, "CRN-080");
}

#[test]
fn profile_lookup_ignores_case() {
    let p = profile_by_code("crn-001").unwrap();
    assert_eq!(p.tier, "retail");
    assert_eq!(p.priority_capacity, 420);
    assert!(profile_by_code("CRN-999").is_none());
}

#[test]
fn profile_amounts_follow_formulas() {
    let p = profile_by_code("CRN-001").unwrap();
    assert_eq!(p.priority_amount().raw(), 420);
    assert_eq!(p.standard_amount().raw(), 980);
    assert_eq!(p.user_ceiling_amount().raw(), 260);
    assert_eq!(p.effective_priority_after_buffer().raw(), 390);
    assert_eq!(p.release_amount().raw(), 235);
    assert!(p.covers_day(0) && p.covers_day(2) && !p.covers_day(3));
    assert!(p.matches_tier("RETAIL") && !p.matches_tier("vip"));
}

#[test]
fn profiles_filter_by_tier_and_day() {
    assert_eq!(profiles_for_tier("Retail").len(), 20);
    assert_eq!(profiles_for_day(0).len(), 4);
    assert_eq!(profiles_for_day(1000).len(), 0);
}

#[test]
fn recommendation_and_totals_for_a_day() {
    assert_eq!(recommended_profile("vip", 55).unwrap().code, "CRN-074");
    assert!(recommended_profile("vip", 1000).is_none());
    assert_eq!(total_priority_for_day(55).raw(), 4680);
    assert_eq!(total_standard_for_day(55).raw(), 7340);
    assert_eq!(total_priority_for_day(1000).raw(), 0);
}
