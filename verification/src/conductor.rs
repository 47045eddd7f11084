//! The Holochain conductor's configuration and the decisions of starting
//! and watching it: which bootstrap, signal and relay servers to use, the
//! YAML configuration it runs with, how its logs are excerpted into an error
//! message, which startup failures call for a full state reset, and when a
//! crash is reported.
//!
//! Spawning the processes, writing files and talking to sockets is the
//! caller's; these functions decide from what the caller observed.

use vstd::prelude::*;
use vstd::string::StringSliceAdditionalSpecFns;
use vstd::utf8::*;

use crate::text::{contains, decimal, decimal_string, is_blank, str_contains, str_is_blank, str_trim, trim};

verus! {

/// The admin WebSocket port of the local conductor (distinct from the
/// Vault's, so both can run at once).
pub const ADMIN_WS_PORT: u16 = 4466;

/// The bootstrap server used when none is configured at build time: the
/// Holochain ecosystem's public development server.
pub const DEFAULT_BOOTSTRAP_URL: &'static str = "https://dev-test-bootstrap2.holochain.org";

/// The signal server used when none is configured at build time.
pub const DEFAULT_SIGNAL_URL: &'static str = "wss://dev-test-bootstrap2.holochain.org";

/// The relay used when none is configured at build time: the public relay
/// Holochain itself defaults to.
pub const DEFAULT_RELAY_URL: &'static str = "https://use1-1.relay.n0.iroh-canary.iroh.link./";

/// What a build-time setting comes to: the configured value, or the default
/// when it is unset or empty (an unset CI secret arrives as the empty
/// string).
pub open spec fn setting_or(configured: Option<Seq<char>>, default: Seq<char>) -> Seq<char> {
    match configured {
        Some(s) => if s.len() > 0 {
            s
        } else {
            default
        },
        None => default,
    }
}

/// The configured value of a build-time setting, or `default` when it is
/// unset or empty.
pub fn env_or<'a>(configured: Option<&'a str>, default: &'a str) -> (r: &'a str)
    ensures
        r@ == setting_or(
            match configured {
                Some(s) => Some(s@),
                None => None,
            },
            default@,
        ),
{
    match configured {
        Some(s) => if !s.is_empty() {
            s
        } else {
            default
        },
        None => default,
    }
}

/// The bootstrap server, given the value configured at build time.
pub fn bootstrap_url(configured: Option<&'static str>) -> (r: &'static str)
    ensures
        r@ == setting_or(
            match configured {
                Some(s) => Some(s@),
                None => None,
            },
            DEFAULT_BOOTSTRAP_URL@,
        ),
{
    env_or(configured, DEFAULT_BOOTSTRAP_URL)
}

/// The signal server, given the value configured at build time.
pub fn signal_url(configured: Option<&'static str>) -> (r: &'static str)
    ensures
        r@ == setting_or(
            match configured {
                Some(s) => Some(s@),
                None => None,
            },
            DEFAULT_SIGNAL_URL@,
        ),
{
    env_or(configured, DEFAULT_SIGNAL_URL)
}

/// The relay, given the value configured at build time.
pub fn relay_url(configured: Option<&'static str>) -> (r: &'static str)
    ensures
        r@ == setting_or(
            match configured {
                Some(s) => Some(s@),
                None => None,
            },
            DEFAULT_RELAY_URL@,
        ),
{
    env_or(configured, DEFAULT_RELAY_URL)
}

/// The bootstrap authentication material (standard base64), given the value
/// configured at build time: none when unset or empty.
pub fn auth_material(configured: Option<&'static str>) -> (r: Option<&'static str>)
    ensures
        match configured {
            Some(s) => if s@.len() > 0 {
                r == Some(s)
            } else {
                r is None
            },
            None => r is None,
        },
{
    match configured {
        Some(s) => if !s.is_empty() {
            Some(s)
        } else {
            None
        },
        None => None,
    }
}

/// Handle state of the conductor as the frontend sees it.
#[allow(inconsistent_fields)]
pub enum ConductorStatus {
    Stopped,
    Starting { message: String },
    AwaitingNetwork { admin_port: u16 },
    Ready { admin_port: u16, app_port: u16 },
    Error { message: String },
}

/// `s` with every single quote doubled: the one escape a single-quoted YAML
/// string needs (backslashes, as in Windows paths, pass through).
pub open spec fn quote_doubled(s: Seq<char>) -> Seq<char>
    decreases s.len(),
{
    if s.len() == 0 {
        seq![]
    } else {
        (if s[0] == '\'' {
            seq!['\'', '\'']
        } else {
            seq![s[0]]
        }) + quote_doubled(s.drop_first())
    }
}

/// How a YAML reader reads the inside of a single-quoted string: a doubled
/// quote stands for one quote.
pub open spec fn quote_undoubled(s: Seq<char>) -> Seq<char>
    decreases s.len(),
{
    if s.len() == 0 {
        seq![]
    } else if s.len() >= 2 && s[0] == '\'' && s[1] == '\'' {
        seq!['\''] + quote_undoubled(s.subrange(2, s.len() as int))
    } else {
        seq![s[0]] + quote_undoubled(s.drop_first())
    }
}

proof fn lemma_quote_doubled_append(a: Seq<char>, b: Seq<char>)
    ensures
        quote_doubled(a + b) == quote_doubled(a) + quote_doubled(b),
    decreases a.len(),
{
    if a.len() > 0 {
        assert((a + b).drop_first() =~= a.drop_first() + b);
        lemma_quote_doubled_append(a.drop_first(), b);
        assert(quote_doubled(a + b) =~= quote_doubled(a) + quote_doubled(b));
    } else {
        assert(a + b =~= b);
        assert(quote_doubled(a) + quote_doubled(b) =~= quote_doubled(b));
    }
}

/// Escaping is faithful: a YAML reader gets back exactly the text that was
/// escaped, whatever quotes and backslashes it holds.
pub proof fn law_quote_escape_reads_back(s: Seq<char>)
    ensures
        quote_undoubled(quote_doubled(s)) == s,
    decreases s.len(),
{
    if s.len() > 0 {
        law_quote_escape_reads_back(s.drop_first());
        let rest = quote_doubled(s.drop_first());
        if s[0] == '\'' {
            let q = seq!['\'', '\''] + rest;
            assert(q.subrange(2, q.len() as int) =~= rest);
            assert(quote_undoubled(q) =~= seq!['\''] + quote_undoubled(rest));
        } else {
            let q = seq![s[0]] + rest;
            assert(q.drop_first() =~= rest);
            assert(quote_undoubled(q) =~= seq![s[0]] + quote_undoubled(rest));
        }
        assert(s =~= seq![s[0]] + s.drop_first());
    }
}

/// `s` with every single quote doubled, for a single-quoted YAML string.
pub fn escape_single_quotes(s: &str) -> (r: String)
    ensures
        r@ == quote_doubled(s@),
{
    let n = s.unicode_len();
    let mut r = String::new();
    let mut i: usize = 0;
    assert(s@.subrange(0, 0) =~= Seq::<char>::empty());
    while i < n
        invariant
            n == s@.len(),
            i <= n,
            r@ == quote_doubled(s@.subrange(0, i as int)),
        decreases n - i,
    {
        let c = s.get_char(i);
        if c == '\'' {
            r.append("''");
        } else {
            crate::text::push_char(&mut r, c);
        }
        proof {
            let piece = seq![c];
            assert(s@.subrange(0, i + 1) =~= s@.subrange(0, i as int) + piece);
            lemma_quote_doubled_append(s@.subrange(0, i as int), piece);
            assert(piece.drop_first() =~= Seq::<char>::empty());
            assert(quote_doubled(Seq::<char>::empty()) =~= Seq::<char>::empty());
            assert(piece[0] == c);
            assert(quote_doubled(piece) =~= (if c == '\'' {
                seq!['\'', '\'']
            } else {
                seq![c]
            }));
            reveal_strlit("''");
            assert(r@ =~= quote_doubled(s@.subrange(0, i as int)) + quote_doubled(piece));
        }
        i += 1;
    }
    assert(s@.subrange(0, n as int) =~= s@);
    r
}

/// The authentication lines of the `network:` block: the same material for
/// bootstrap and relay, which authenticate separately; nothing when there is
/// none.
pub open spec fn auth_lines(auth: Option<Seq<char>>) -> Seq<char> {
    match auth {
        Some(m) => "  base64_auth_material_bootstrap: \""@ + m + "\"\n  base64_auth_material_relay: \""@
            + m + "\"\n"@,
        None => seq![],
    }
}

/// Renders the authentication lines of the `network:` block.
pub fn auth_line(auth: Option<&str>) -> (r: String)
    ensures
        r@ == auth_lines(
            match auth {
                Some(m) => Some(m@),
                None => None,
            },
        ),
{
    match auth {
        Some(m) => {
            let mut r = String::from_str("  base64_auth_material_bootstrap: \"");
            r.append(m);
            r.append("\"\n  base64_auth_material_relay: \"");
            r.append(m);
            r.append("\"\n");
            r
        },
        None => String::new(),
    }
}

/// The conductor's YAML configuration: its data root and the keystore's
/// connection URL in single-quoted strings, the admin interface on
/// `admin_port`, and the network servers.
pub open spec fn conductor_config(
    data_root: Seq<char>,
    lair_url: Seq<char>,
    admin_port: nat,
    bootstrap: Seq<char>,
    signal: Seq<char>,
    relay: Seq<char>,
    auth: Option<Seq<char>>,
) -> Seq<char> {
    "data_root_path: '"@ + quote_doubled(data_root)
        + "'\nkeystore:\n  type: lair_server\n  connection_url: '"@ + quote_doubled(lair_url)
        + "'\nadmin_interfaces:\n- driver:\n    type: websocket\n    port: "@ + decimal(admin_port)
        + "\n    allowed_origins: '*'\nnetwork:\n  bootstrap_url: "@ + bootstrap
        + "\n  signal_url: "@ + signal + "\n  relay_url: "@ + relay + "\n"@ + auth_lines(auth)
        + "db_sync_strategy: Resilient\n"@
}

/// Renders the conductor configuration written to `conductor-config.yaml`,
/// given the displayed path of the conductor directory.
pub fn generate_conductor_config(
    data_root: &str,
    lair_connection_url: &str,
    admin_port: u16,
    bootstrap: &str,
    signal: &str,
    relay: &str,
    auth: Option<&str>,
) -> (r: String)
    ensures
        r@ == conductor_config(
            data_root@,
            lair_connection_url@,
            admin_port as nat,
            bootstrap@,
            signal@,
            relay@,
            match auth {
                Some(m) => Some(m@),
                None => None,
            },
        ),
{
    let root = escape_single_quotes(data_root);
    let url = escape_single_quotes(lair_connection_url);
    let port = decimal_string(admin_port as u64);
    let auth_text = auth_line(auth);
    let mut r = String::from_str("data_root_path: '");
    r.append(root.as_str());
    r.append("'\nkeystore:\n  type: lair_server\n  connection_url: '");
    r.append(url.as_str());
    r.append("'\nadmin_interfaces:\n- driver:\n    type: websocket\n    port: ");
    r.append(port.as_str());
    r.append("\n    allowed_origins: '*'\nnetwork:\n  bootstrap_url: ");
    r.append(bootstrap);
    r.append("\n  signal_url: ");
    r.append(signal);
    r.append("\n  relay_url: ");
    r.append(relay);
    r.append("\n");
    r.append(auth_text.as_str());
    r.append("db_sync_strategy: Resilient\n");
    r
}

/// The longest log excerpt spliced into an error message, in bytes.
pub const LOG_EXCERPT_BYTES: usize = 500;

/// The last character boundary of `bytes` at or before byte `k`.
pub open spec fn boundary_at_or_before(bytes: Seq<u8>, k: int) -> int
    decreases k,
{
    if k <= 0 {
        0
    } else if is_char_boundary(bytes, k) {
        k
    } else {
        boundary_at_or_before(bytes, k - 1)
    }
}

/// `s` cut to its first 500 bytes, moved back to the last character
/// boundary so no character is split, with `...` after, when it is longer.
pub open spec fn excerpt(s: Seq<char>) -> Seq<char> {
    if encode_utf8(s).len() > LOG_EXCERPT_BYTES {
        decode_utf8(
            encode_utf8(s).subrange(0, boundary_at_or_before(encode_utf8(s), LOG_EXCERPT_BYTES as int)),
        ) + "..."@
    } else {
        s
    }
}

/// Cuts `s` to at most its first 500 bytes, ending on a character
/// boundary, adding `...`, when it is longer.
pub fn excerpt_of(s: &str) -> (r: String)
    ensures
        r@ == excerpt(s@),
{
    broadcast use vstd::utf8::group_utf8_lib;

    if s.as_bytes().len() > LOG_EXCERPT_BYTES {
        let ghost bytes = s.spec_bytes();
        let mut k: usize = LOG_EXCERPT_BYTES;
        while k > 0 && !s.is_char_boundary(k)
            invariant
                k <= LOG_EXCERPT_BYTES,
                bytes == s.spec_bytes(),
                boundary_at_or_before(bytes, LOG_EXCERPT_BYTES as int) == boundary_at_or_before(
                    bytes,
                    k as int,
                ),
            decreases k,
        {
            k -= 1;
        }
        proof {
            assert(valid_utf8(bytes));
            assert(is_char_boundary(bytes, k as int));
            assert(boundary_at_or_before(bytes, k as int) == k);
        }
        let (head, _) = s.split_at(k);
        proof {
            assert(head.spec_bytes() == encode_utf8(head@));
            assert(decode_utf8(encode_utf8(head@)) == head@);
            assert(encode_utf8(head@) =~= encode_utf8(s@).subrange(0, k as int));
        }
        let mut r = String::from_str(head);
        r.append("...");
        assert(r@ == head@ + "..."@);
        r
    } else {
        String::from_str(s)
    }
}

/// The conductor's log text: its error stream when that holds anything,
/// else its output stream, cut to an excerpt.
pub open spec fn conductor_log_excerpt(stderr: Seq<char>, stdout: Seq<char>) -> Seq<char> {
    excerpt(
        if stderr.len() > 0 {
            stderr
        } else {
            stdout
        },
    )
}

/// Excerpts the conductor's logs for an error message, given the contents
/// of its error and output log files (empty when unreadable).
pub fn read_conductor_logs(stderr: &str, stdout: &str) -> (r: String)
    ensures
        r@ == conductor_log_excerpt(stderr@, stdout@),
{
    if !stderr.is_empty() {
        excerpt_of(stderr)
    } else {
        excerpt_of(stdout)
    }
}

/// The first startup attempt failed because the encrypted stores no longer
/// pair with the passphrase (left behind by a partial uninstall); only a
/// full state reset recovers from that.
pub open spec fn is_state_mismatch(error: Seq<char>) -> bool {
    contains(error, "hmac check failed"@) || contains(error, "SQL logic error"@) || contains(
        error,
        "error decrypting page"@,
    )
}

/// How to recover from a failed first startup attempt before the single
/// retry.
#[derive(Clone, Copy, PartialEq, Eq, Structural, Debug)]
pub enum StartupRecovery {
    /// Wipe the keystore, the conductor data and the passphrase, and retry
    /// with a new passphrase.
    ResetState,
    /// Retry with the same passphrase (a transient network or file-lock
    /// hiccup).
    Restart,
}

/// Decides how to recover from the first startup attempt's error.
pub fn startup_recovery(first_error: &str) -> (r: StartupRecovery)
    ensures
        r == (if is_state_mismatch(first_error@) {
            StartupRecovery::ResetState
        } else {
            StartupRecovery::Restart
        }),
{
    if str_contains(first_error, "hmac check failed") || str_contains(first_error, "SQL logic error")
        || str_contains(first_error, "error decrypting page") {
        StartupRecovery::ResetState
    } else {
        StartupRecovery::Restart
    }
}

/// The message shown while recovering.
pub fn recovery_message(recovery: StartupRecovery) -> (r: String)
    ensures
        r@ == (match recovery {
            StartupRecovery::ResetState => "Recovering from corrupted state — full reset..."@,
            StartupRecovery::Restart => "First-run setup needs a quick restart..."@,
        }),
{
    match recovery {
        StartupRecovery::ResetState => String::from_str("Recovering from corrupted state — full reset..."),
        StartupRecovery::Restart => String::from_str("First-run setup needs a quick restart..."),
    }
}

/// The keystore's pipe or socket is not there yet, which on Windows is
/// normal for a second or two after the server starts.
pub open spec fn is_keystore_not_ready(error: Seq<char>) -> bool {
    contains(error, "os error 2"@) || contains(error, "cannot find the file"@) || contains(
        error,
        "No such file or directory"@,
    )
}

/// Whether a failed keystore connection is worth retrying.
pub fn keystore_not_ready(error: &str) -> (r: bool)
    ensures
        r == is_keystore_not_ready(error@),
{
    str_contains(error, "os error 2") || str_contains(error, "cannot find the file")
        || str_contains(error, "No such file or directory")
}

/// The error when the admin interface did not come up in time: the
/// conductor's logs when they hold anything, else the port waited on.
pub open spec fn admin_ws_timeout_text(timeout_secs: nat, port: nat, logs: Seq<char>) -> Seq<char> {
    if !is_blank(logs) {
        "Conductor not ready after "@ + decimal(timeout_secs) + "s. Logs: "@ + trim(logs)
    } else {
        "Conductor admin WS not ready after "@ + decimal(timeout_secs) + "s on port "@ + decimal(
            port,
        )
    }
}

/// Renders the error for an admin interface that did not come up in time.
pub fn admin_ws_timeout_error(timeout_secs: u64, port: u16, logs: &str) -> (r: String)
    ensures
        r@ == admin_ws_timeout_text(timeout_secs as nat, port as nat, logs@),
{
    let secs = decimal_string(timeout_secs);
    if !str_is_blank(logs) {
        let mut r = String::from_str("Conductor not ready after ");
        r.append(secs.as_str());
        r.append("s. Logs: ");
        r.append(str_trim(logs));
        r
    } else {
        let p = decimal_string(port as u64);
        let mut r = String::from_str("Conductor admin WS not ready after ");
        r.append(secs.as_str());
        r.append("s on port ");
        r.append(p.as_str());
        r
    }
}

/// Renders the error for a conductor that exited while starting, given its
/// exit status as displayed and its log excerpt.
pub fn conductor_exited_error(status: &str, logs: &str) -> (r: String)
    ensures
        r@ == "Conductor exited during startup (status "@ + status@ + "): "@ + trim(logs@),
{
    let mut r = String::from_str("Conductor exited during startup (status ");
    r.append(status);
    r.append("): ");
    r.append(str_trim(logs));
    r
}

/// What the health monitor does after checking whether the conductor is
/// alive.
#[derive(Clone, Copy, PartialEq, Eq, Structural, Debug)]
pub enum HealthStep {
    /// Still running: check again later.
    KeepWatching,
    /// It died while in use: report the crash and stop watching.
    ReportCrash,
    /// It died, but was not in use (already stopped or failed): stop
    /// watching without a report.
    StopWatching,
}

/// Decides after a liveness check, given whether the conductor is alive and
/// the status last reported.
pub fn health_step(alive: bool, current: &ConductorStatus) -> (r: HealthStep)
    ensures
        r == (if alive {
            HealthStep::KeepWatching
        } else if current is Ready {
            HealthStep::ReportCrash
        } else {
            HealthStep::StopWatching
        }),
{
    if alive {
        HealthStep::KeepWatching
    } else {
        match current {
            ConductorStatus::Ready { .. } => HealthStep::ReportCrash,
            _ => HealthStep::StopWatching,
        }
    }
}

/// The status reported when the conductor stopped while in use.
pub fn crash_status() -> (r: ConductorStatus)
    ensures
        r matches ConductorStatus::Error { message } && message@
            == "The Holochain conductor stopped unexpectedly. Restart the app to reconnect."@,
{
    ConductorStatus::Error {
        message: String::from_str(
            "The Holochain conductor stopped unexpectedly. Restart the app to reconnect.",
        ),
    }
}

} // verus!
