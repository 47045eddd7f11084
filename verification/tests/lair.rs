use fieldnotes::lair::{connection_url_in, lair_socket_path, read_lair_logs};

#[test]
fn connection_url_found_on_its_line() {
    let cfg = "---\npidFile: /x/pid\n  connectionUrl:   unix:///x/socket?k=abc  \r\nrunTmpDir: /x\n";
    assert_eq!(
        connection_url_in(cfg).as_deref(),
        Some("unix:///x/socket?k=abc")
    );
}

#[test]
fn first_connection_url_wins() {
    let cfg = "connectionUrl: first\nconnectionUrl: second";
    assert_eq!(connection_url_in(cfg).as_deref(), Some("first"));
}

#[test]
fn no_connection_url() {
    assert_eq!(connection_url_in("a: b\nc: d\n"), None);
    assert_eq!(connection_url_in(""), None);
    assert_eq!(connection_url_in("# connectionUrl: x"), None);
}

#[test]
fn lair_logs_placeholder_and_preference() {
    assert_eq!(read_lair_logs("  \n", ""), "(no output captured)");
    assert_eq!(read_lair_logs(" \n", " out \n"), "out");
    assert_eq!(read_lair_logs(" err ", "out"), "err");
    let cut = read_lair_logs(&"z".repeat(700), "");
    assert_eq!(cut, format!("{}...", "z".repeat(500)));
}

#[test]
fn socket_path_is_percent_decoded() {
    assert_eq!(
        lair_socket_path("/Users/me/Library/Application%20Support/app/socket"),
        "/Users/me/Library/Application Support/app/socket"
    );
    assert_eq!(lair_socket_path("/plain/path"), "/plain/path");
}

#[test]
fn lair_logs_never_split_a_character() {
    let log = format!("  {}ü and more  ", "b".repeat(499));
    assert_eq!(read_lair_logs(&log, ""), format!("{}...", "b".repeat(499)));
}
