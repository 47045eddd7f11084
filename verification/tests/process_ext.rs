use std::collections::HashMap;

use fieldnotes::process_ext::{
    hide_poll_interval_ms, is_console_class, is_diagnostic_window, is_sidecar_terminal,
    is_window_candidate, tick_log, to_ascii_lowercase, try_hide_once, window_manager_delays_ms,
    Candidate, TickLog,
};

fn cand(hwnd: usize, owner: u32, class: &str, visible: bool) -> Candidate {
    Candidate { hwnd, owner_pid: owner, class: class.into(), was_visible: visible }
}

#[test]
fn console_classes() {
    for c in [
        "ConsoleWindowClass",
        "OpenConsoleWindow",
        "PseudoConsoleWindow",
        "CASCADIA_HOSTING_WINDOW_CLASS",
    ] {
        assert!(is_console_class(c));
    }
    assert!(!is_console_class("consolewindowclass"));
    assert!(!is_console_class("Chrome_WidgetWin_1"));
}

#[test]
fn sidecar_terminals_found_by_title() {
    assert!(is_sidecar_terminal(
        "CASCADIA_HOSTING_WINDOW_CLASS",
        "C:\\Program Files\\App\\ProofPoll-Holochain.exe"
    ));
    assert!(!is_sidecar_terminal("Notepad", "proofpoll-holochain"));
    assert!(!is_sidecar_terminal("ConsoleWindowClass", "cmd.exe"));
    assert_eq!(to_ascii_lowercase("AbC-É"), "abc-É");
}

#[test]
fn diagnostic_windows() {
    assert!(is_diagnostic_window("X", "Holochain.exe"));
    assert!(is_diagnostic_window("X", "conhost.exe"));
    assert!(is_diagnostic_window("OpenConsoleWindow", "explorer.exe"));
    assert!(!is_diagnostic_window("X", "explorer.exe"));
    assert!(is_window_candidate(7, 7, "Anything"));
    assert!(is_window_candidate(8, 7, "ConsoleWindowClass"));
    assert!(!is_window_candidate(8, 7, "Anything"));
}

#[test]
fn hide_pass_hides_own_windows_and_child_consoles() {
    let mut parents = HashMap::new();
    parents.insert(20u32, 10u32);
    parents.insert(30u32, 99u32);
    let cands = vec![
        cand(1, 10, "Whatever", false),
        cand(2, 20, "ConsoleWindowClass", true),
        cand(3, 30, "ConsoleWindowClass", true),
        cand(4, 20, "NotAConsole", true),
        cand(5, 10, "Other", true),
    ];
    let pass = try_hide_once(10, &cands, &parents);
    assert_eq!(pass.windows, vec![1, 2, 5]);
    assert_eq!(pass.hides, 3);
    assert_eq!(pass.hides_while_visible, 2);
    assert_eq!(pass.first_class.as_deref(), Some("Whatever"));
    assert_eq!(pass.first_via_parent_class.as_deref(), Some("ConsoleWindowClass"));
}

#[test]
fn hide_pass_with_nothing_to_hide() {
    let pass = try_hide_once(10, &vec![cand(1, 11, "X", true)], &HashMap::new());
    assert!(pass.windows.is_empty());
    assert_eq!(pass.hides, 0);
    assert_eq!(pass.first_class, None);
}

#[test]
fn polling_schedule() {
    assert_eq!(hide_poll_interval_ms(0), 50);
    assert_eq!(hide_poll_interval_ms(1999), 50);
    assert_eq!(hide_poll_interval_ms(2000), 200);
    let delays = window_manager_delays_ms();
    assert_eq!(delays.iter().sum::<u64>(), 49_500);
    assert_eq!(tick_log(16_000, 0), TickLog::Dump);
    assert_eq!(tick_log(16_001, 2), TickLog::Rehid);
    assert_eq!(tick_log(20_000, 0), TickLog::Quiet);
}
