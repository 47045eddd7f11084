use fieldnotes::agent_key::AgentPubKey;
use fieldnotes::dna::{
    active_enabled, app_version, authorize_step, is_cell_disabled, plan_existing_app, probe_step, AppVersion,
    AuthorizeStep, ExistingApp, InstallScan, ProbeStep, ACTIVE_APP_ID,
};

fn key(seed: u8) -> AgentPubKey {
    AgentPubKey { raw: [seed; 39] }
}

#[test]
fn versions_by_app_id() {
    assert_eq!(app_version("proofpoll_v1_0"), Some(AppVersion::V1_0));
    assert_eq!(app_version("proofpoll_v1_2"), Some(AppVersion::V1_2));
    assert_eq!(app_version("fieldnotes_v1_3"), Some(AppVersion::V1_3));
    assert_eq!(app_version("other"), None);
    assert_eq!(ACTIVE_APP_ID, "fieldnotes_v1_3");
}

#[test]
fn existing_app_plans() {
    assert_eq!(plan_existing_app("proofpoll_v1_0", true), ExistingApp::EnableLegacy(AppVersion::V1_0));
    assert_eq!(
        plan_existing_app("proofpoll_v1_0", false),
        ExistingApp::KeepLegacy { version: AppVersion::V1_0, nudge: false }
    );
    assert_eq!(
        plan_existing_app("proofpoll_v1_1", false),
        ExistingApp::KeepLegacy { version: AppVersion::V1_1, nudge: true }
    );
    assert_eq!(plan_existing_app("fieldnotes_v1_3", true), ExistingApp::ReinstallActive);
    assert_eq!(plan_existing_app("fieldnotes_v1_3", false), ExistingApp::ReenableActive);
    assert_eq!(plan_existing_app("somebody_else", false), ExistingApp::Ignore);
}

#[test]
fn fresh_install_reuses_most_recent_agent_and_flags_migration() {
    let mut scan = InstallScan::new();
    scan.record(AppVersion::V1_0, key(1));
    scan.record(AppVersion::V1_2, key(3));
    assert_eq!(scan.reused_agent_key().unwrap().raw, key(3).raw);
    assert!(scan.needs_migration());
    let res = scan.finish(Some(key(9)), true).ok().unwrap();
    assert_eq!(res.agent_pub_key.raw, key(9).raw);
    assert!(res.needs_migration);
    assert!(res.v1_0_available);
    assert!(!res.v1_1_available);
    assert!(res.v1_2_available);
}

#[test]
fn existing_active_install_keeps_its_agent() {
    let mut scan = InstallScan::new();
    scan.record(AppVersion::V1_2, key(3));
    scan.record(AppVersion::V1_3, key(4));
    assert!(!scan.needs_migration());
    let res = scan.finish(None, true).ok().unwrap();
    assert_eq!(res.agent_pub_key.raw, key(4).raw);
    assert!(!res.needs_migration);
}

#[test]
fn install_failures() {
    let scan = InstallScan::new();
    assert_eq!(
        scan.finish(Some(key(1)), false).err().unwrap(),
        "Fieldnotes v1.3 DNA installation verification failed"
    );
    assert_eq!(
        scan.finish(None, true).err().unwrap(),
        "No agent key after installation"
    );
    assert!(scan.reused_agent_key().is_none());
}

#[test]
fn active_app_must_be_listed_enabled() {
    assert!(active_enabled(&vec!["x".into(), "fieldnotes_v1_3".into()]));
    assert!(!active_enabled(&vec!["proofpoll_v1_2".into()]));
    assert!(!active_enabled(&vec![]));
}

#[test]
fn readiness_probe_waits_only_for_disabled_cells() {
    assert_eq!(probe_step(1, None), ProbeStep::Ready);
    assert_eq!(probe_step(1, Some("CellDisabled(..)")), ProbeStep::WaitAndRetry);
    assert_eq!(probe_step(5, Some("CellDisabled(..)")), ProbeStep::WaitAndRetry);
    assert_eq!(probe_step(6, Some("CellDisabled(..)")), ProbeStep::GiveUp);
    assert_eq!(probe_step(1, Some("other")), ProbeStep::GiveUp);
    assert!(is_cell_disabled("error: CellDisabled"));
    assert!(!is_cell_disabled("error: cell disabled"));
}

#[test]
fn signing_is_retried_once_for_a_disabled_cell() {
    assert_eq!(authorize_step(false, None), AuthorizeStep::AddCredentials);
    assert_eq!(authorize_step(true, None), AuthorizeStep::AddCredentials);
    assert_eq!(authorize_step(false, Some("CellDisabled(abc)")), AuthorizeStep::ReenableAndRetry);
    assert_eq!(authorize_step(true, Some("CellDisabled(abc)")), AuthorizeStep::Skip);
    assert_eq!(authorize_step(false, Some("timeout")), AuthorizeStep::Skip);
}
