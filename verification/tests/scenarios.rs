use crown_dtl::runtime::{
    run_scenario,
    scenario_cancel, scenario_limits, scenario_order, scenario_report, scenario_withdrawals,
};

#[test]
fn order_scenario_serves_priority_by_tier_then_standard() {
    assert_eq!(
        scenario_order().unwrap(),
        "{\"scenario\":\"order\",\"standard\":\"rdm-1\",\"vip\":\"rdm-2\",\"institutional\":\"rdm-3\",\"queueOrder\":[\"rdm-3\",\"rdm-2\",\"rdm-1\"],\"processed\":[\"rdm-3\",\"rdm-2\",\"rdm-1\"],\"processedLabels\":[\"carol\",\"bob\",\"alice\"],\"processedLanes\":[\"priority\",\"priority\",\"standard\"]}"
    );
}

#[test]
fn limits_scenario_refuses_then_reopens() {
    assert_eq!(
        scenario_limits().unwrap(),
        "{\"scenario\":\"limits\",\"first\":\"rdm-1\",\"second\":\"rdm-2\",\"rejectedCode\":\"limit_exceeded\",\"activeAfterCancel\":0,\"capacityAfterCancel\":1500}"
    );
}

#[test]
fn cancel_scenario_restores_and_replaces() {
    assert_eq!(
        scenario_cancel().unwrap(),
        "{\"scenario\":\"cancel\",\"cancelled\":\"rdm-1\",\"cancelledStatus\":\"cancelled\",\"withdrawCancelledCode\":\"invalid_status\",\"replacement\":\"rdm-2\",\"processed\":[\"rdm-2\"],\"sharesAfterCancel\":2000,\"capacityAfterCancel\":1500,\"withdrawn\":500}"
    );
}

#[test]
fn withdrawals_scenario_pays_when_mature() {
    let out = scenario_withdrawals().unwrap();
    assert!(out.starts_with(
        "{\"scenario\":\"withdrawals\",\"priority\":\"rdm-1\",\"standard\":\"rdm-2\",\"processed\":[\"rdm-1\",\"rdm-2\"],\"early\":0,\"vipWithdrawal\":300,\"standardWithdrawal\":200,\"report\":{\"day\":3,"
    ));
    assert!(out.contains("\"reserveAssets\":7500,\"totalShares\":7500,\"pendingAssets\":0"));
    assert!(out.contains("\"tickets\":{\"queued\":0,\"pendingUnlock\":0,\"cancelled\":0,\"withdrawn\":2}"));
    assert!(out.ends_with("}}"));
}

#[test]
fn report_scenario_describes_fixture() {
    assert_eq!(
        scenario_report().unwrap(),
        "{\"day\":0,\"eventCount\":18,\"accounts\":[{\"id\":\"acct-1\",\"label\":\"alice\",\"tier\":\"standard\",\"shares\":[{\"vault\":\"vault-1\",\"amount\":2000}],\"assets\":[]},{\"id\":\"acct-2\",\"label\":\"bob\",\"tier\":\"vip\",\"shares\":[{\"vault\":\"vault-1\",\"amount\":2000}],\"assets\":[]},{\"id\":\"acct-3\",\"label\":\"carol\",\"tier\":\"institutional\",\"shares\":[{\"vault\":\"vault-1\",\"amount\":3000}],\"assets\":[]},{\"id\":\"acct-4\",\"label\":\"dan\",\"tier\":\"standard\",\"shares\":[{\"vault\":\"vault-1\",\"amount\":1000}],\"assets\":[]}],\"vaults\":[{\"id\":\"vault-1\",\"name\":\"Crown DTL senior vault\",\"asset\":\"asset-1\",\"reserveAssets\":8000,\"totalShares\":8000,\"pendingAssets\":0,\"queueDepth\":0,\"openClaims\":0,\"tickets\":{\"queued\":0,\"pendingUnlock\":0,\"cancelled\":0,\"withdrawn\":0}}]}"
    );
}

#[test]
fn command_line_runs_the_named_scenario() {
    let out = run_scenario(Some("scenario"), Some("limits")).unwrap();
    assert_eq!(out, scenario_limits().unwrap());
    let out = run_scenario(Some("scenario"), Some("order")).unwrap();
    assert_eq!(out, scenario_order().unwrap());
}

#[test]
fn command_line_refuses_unknown_scenarios_and_bad_usage() {
    let err = run_scenario(Some("scenario"), Some("audit")).unwrap_err();
    assert_eq!(err.code(), "cli");
    assert_eq!(err.detail(), "unknown scenario 'audit'");
    let err = run_scenario(Some("report"), None).unwrap_err();
    assert_eq!(err.code(), "cli");
    assert_eq!(err.detail(), "usage: crown-dtl scenario <order|limits|cancel|withdrawals|report>");
    let err = run_scenario(None, None).unwrap_err();
    assert_eq!(err.detail(), "usage: crown-dtl scenario <order|limits|cancel|withdrawals|report>");
}
