use fieldnotes::conductor::{
    admin_ws_timeout_error, auth_line, auth_material, bootstrap_url, conductor_exited_error,
    crash_status, escape_single_quotes, generate_conductor_config, health_step,
    keystore_not_ready, read_conductor_logs, recovery_message, relay_url, signal_url,
    startup_recovery, ConductorStatus, HealthStep, StartupRecovery, ADMIN_WS_PORT,
};

#[test]
fn urls_fall_back_to_defaults_when_unset_or_empty() {
    assert_eq!(bootstrap_url(None), "https://dev-test-bootstrap2.holochain.org");
    assert_eq!(bootstrap_url(Some("")), "https://dev-test-bootstrap2.holochain.org");
    assert_eq!(bootstrap_url(Some("https://b.example")), "https://b.example");
    assert_eq!(signal_url(None), "wss://dev-test-bootstrap2.holochain.org");
    assert_eq!(relay_url(None), "https://use1-1.relay.n0.iroh-canary.iroh.link./");
    assert_eq!(auth_material(None), None);
    assert_eq!(auth_material(Some("")), None);
    assert_eq!(auth_material(Some("YWJj")), Some("YWJj"));
    assert_eq!(ADMIN_WS_PORT, 4466);
}

#[test]
fn single_quotes_are_doubled() {
    assert_eq!(escape_single_quotes("C:\\Users\\O'Brien"), "C:\\Users\\O''Brien");
    assert_eq!(escape_single_quotes("''"), "''''");
    assert_eq!(escape_single_quotes("plain"), "plain");
}

#[test]
fn auth_lines_repeat_material_for_bootstrap_and_relay() {
    assert_eq!(auth_line(None), "");
    assert_eq!(
        auth_line(Some("bWF0")),
        "  base64_auth_material_bootstrap: \"bWF0\"\n  base64_auth_material_relay: \"bWF0\"\n"
    );
}

#[test]
fn conductor_config_text() {
    let text = generate_conductor_config(
        "/data/it's",
        "unix:///tmp/socket?k=1",
        4466,
        "https://b",
        "wss://s",
        "https://r",
        None,
    );
    let expected = "data_root_path: '/data/it''s'\nkeystore:\n  type: lair_server\n  connection_url: 'unix:///tmp/socket?k=1'\nadmin_interfaces:\n- driver:\n    type: websocket\n    port: 4466\n    allowed_origins: '*'\nnetwork:\n  bootstrap_url: https://b\n  signal_url: wss://s\n  relay_url: https://r\ndb_sync_strategy: Resilient\n";
    assert_eq!(text, expected);
}

#[test]
fn conductor_config_with_auth() {
    let text = generate_conductor_config("/d", "u", 1, "b", "s", "r", Some("QQ=="));
    assert!(text.contains("  relay_url: r\n  base64_auth_material_bootstrap: \"QQ==\"\n  base64_auth_material_relay: \"QQ==\"\ndb_sync_strategy: Resilient\n"));
}

#[test]
fn logs_prefer_stderr_and_are_cut_at_500_bytes() {
    assert_eq!(read_conductor_logs("err", "out"), "err");
    assert_eq!(read_conductor_logs("", "out"), "out");
    let long = "x".repeat(600);
    let cut = read_conductor_logs(&long, "");
    assert_eq!(cut.len(), 503);
    assert!(cut.ends_with("..."));
    assert_eq!(read_conductor_logs(&"y".repeat(500), ""), "y".repeat(500));
}

#[test]
fn long_logs_are_cut_before_a_split_character() {
    // 499 ASCII bytes, then a 3-byte character spanning bytes 499..502.
    let log = format!("{}€tail", "a".repeat(499));
    let cut = read_conductor_logs(&log, "");
    assert_eq!(cut, format!("{}...", "a".repeat(499)));
    // A 2-byte character ending exactly at byte 500 is kept whole.
    let log = format!("{}éxyz", "a".repeat(498));
    assert_eq!(read_conductor_logs(&log, ""), format!("{}é...", "a".repeat(498)));
}

#[test]
fn hmac_failures_reset_state() {
    assert_eq!(
        startup_recovery("sqlcipher_page_cipher: hmac check failed"),
        StartupRecovery::ResetState
    );
    assert_eq!(startup_recovery("SQL logic error"), StartupRecovery::ResetState);
    assert_eq!(startup_recovery("error decrypting page 1"), StartupRecovery::ResetState);
    assert_eq!(startup_recovery("iroh relay unreachable"), StartupRecovery::Restart);
    assert_eq!(
        recovery_message(StartupRecovery::ResetState),
        "Recovering from corrupted state — full reset..."
    );
    assert_eq!(
        recovery_message(StartupRecovery::Restart),
        "First-run setup needs a quick restart..."
    );
}

#[test]
fn keystore_pipe_not_ready_errors() {
    assert!(keystore_not_ready("The system cannot find the file specified. (os error 2)"));
    assert!(keystore_not_ready("No such file or directory"));
    assert!(!keystore_not_ready("permission denied"));
}

#[test]
fn admin_ws_timeout_messages() {
    assert_eq!(
        admin_ws_timeout_error(30, 4466, "  boom \n"),
        "Conductor not ready after 30s. Logs: boom"
    );
    assert_eq!(
        admin_ws_timeout_error(30, 4466, " \n "),
        "Conductor admin WS not ready after 30s on port 4466"
    );
    assert_eq!(
        conductor_exited_error("exit status: 1", " panicked \n"),
        "Conductor exited during startup (status exit status: 1): panicked"
    );
}

#[test]
fn crash_reported_only_when_ready() {
    let ready = ConductorStatus::Ready { admin_port: 1, app_port: 2 };
    assert_eq!(health_step(true, &ready), HealthStep::KeepWatching);
    assert_eq!(health_step(false, &ready), HealthStep::ReportCrash);
    assert_eq!(health_step(false, &ConductorStatus::Stopped), HealthStep::StopWatching);
    assert_eq!(
        health_step(false, &ConductorStatus::Error { message: "x".into() }),
        HealthStep::StopWatching
    );
    match crash_status() {
        ConductorStatus::Error { message } => assert_eq!(
            message,
            "The Holochain conductor stopped unexpectedly. Restart the app to reconnect."
        ),
        _ => panic!("expected an error status"),
    }
}
