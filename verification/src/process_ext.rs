//! Decisions for keeping the sidecar processes' console windows hidden on
//! Windows: which windows are console hosts, which of them belong to a
//! spawned sidecar, how often to look, and what to log.
//!
//! Enumerating windows and processes and hiding them are the caller's; it
//! hands in what it saw and hides what these functions pick.

use std::collections::HashMap;
use vstd::prelude::*;

use crate::text::{contains, push_char, str_contains, str_eq};

verus! {

broadcast use vstd::std_specs::hash::group_hash_axioms;

/// The window classes of Windows' console hosts: classic conhost, the
/// conhost under Windows Terminal, the ConPTY window, and Windows Terminal's
/// hosting frame.
pub open spec fn console_class(class: Seq<char>) -> bool {
    ||| class == "ConsoleWindowClass"@
    ||| class == "OpenConsoleWindow"@
    ||| class == "PseudoConsoleWindow"@
    ||| class == "CASCADIA_HOSTING_WINDOW_CLASS"@
}

/// Whether a window class is one of a console host's.
pub fn is_console_class(class: &str) -> (r: bool)
    ensures
        r == console_class(class@),
{
    str_eq(class, "ConsoleWindowClass") || str_eq(class, "OpenConsoleWindow") || str_eq(
        class,
        "PseudoConsoleWindow",
    ) || str_eq(class, "CASCADIA_HOSTING_WINDOW_CLASS")
}

/// `c` in lower case when it is an ASCII capital.
pub open spec fn ascii_lower_char(c: char) -> char {
    if 'A' <= c && c <= 'Z' {
        ((c as u32) + 32) as char
    } else {
        c
    }
}

/// `s` with its ASCII capitals in lower case, as `str::to_ascii_lowercase`
/// gives it.
pub open spec fn ascii_lower(s: Seq<char>) -> Seq<char> {
    s.map_values(|c: char| ascii_lower_char(c))
}

/// Lower-cases the ASCII capitals of `s`.
pub fn to_ascii_lowercase(s: &str) -> (r: String)
    ensures
        r@ == ascii_lower(s@),
{
    let n = s.unicode_len();
    let mut r = String::new();
    let mut i: usize = 0;
    while i < n
        invariant
            n == s@.len(),
            i <= n,
            r@ == ascii_lower(s@.subrange(0, i as int)),
        decreases n - i,
    {
        let c = s.get_char(i);
        let lc = if 'A' <= c && c <= 'Z' {
            let v: u8 = (c as u8) + 32;
            v as char
        } else {
            c
        };
        push_char(&mut r, lc);
        assert(ascii_lower(s@.subrange(0, i + 1)) =~= ascii_lower(s@.subrange(0, i as int)).push(
            ascii_lower_char(c),
        ));
        i += 1;
    }
    assert(s@.subrange(0, n as int) =~= s@);
    r
}

/// A console-host window whose title names one of our sidecars, whichever
/// process owns it (usually Windows Terminal).
pub open spec fn sidecar_terminal(class: Seq<char>, title: Seq<char>) -> bool {
    console_class(class) && (contains(ascii_lower(title), "proofpoll-holochain"@) || contains(
        ascii_lower(title),
        "proofpoll-lair-keystore"@,
    ))
}

/// Whether a window is one of our sidecars' console-host windows.
pub fn is_sidecar_terminal(class: &str, title: &str) -> (r: bool)
    ensures
        r == sidecar_terminal(class@, title@),
{
    if !is_console_class(class) {
        return false;
    }
    let lower = to_ascii_lowercase(title);
    str_contains(lower.as_str(), "proofpoll-holochain") || str_contains(
        lower.as_str(),
        "proofpoll-lair-keystore",
    )
}

/// A window worth listing in the console diagnostics: a console host, or
/// one owned by a process whose name mentions the conductor or keystore, or
/// by conhost itself.
pub open spec fn diagnostic_window(class: Seq<char>, process_name: Seq<char>) -> bool {
    let name = ascii_lower(process_name);
    console_class(class) || contains(name, "holochain"@) || contains(name, "lair"@) || name
        == "conhost.exe"@
}

/// Whether a window belongs in the console diagnostics.
pub fn is_diagnostic_window(class: &str, process_name: &str) -> (r: bool)
    ensures
        r == diagnostic_window(class@, process_name@),
{
    let name = to_ascii_lowercase(process_name);
    is_console_class(class) || str_contains(name.as_str(), "holochain") || str_contains(
        name.as_str(),
        "lair",
    ) || str_eq(name.as_str(), "conhost.exe")
}

/// A window found in one enumeration pass.
pub struct Candidate {
    pub hwnd: usize,
    pub owner_pid: u32,
    pub class: String,
    pub was_visible: bool,
}

/// Whether a window found while enumerating is worth considering: one the
/// spawned process owns (whatever its class), or a console host (whose owner
/// may be a child of the spawned process).
pub fn is_window_candidate(owner_pid: u32, target_pid: u32, class: &str) -> (r: bool)
    ensures
        r == (owner_pid == target_pid || console_class(class@)),
{
    owner_pid == target_pid || is_console_class(class)
}

/// A window owned by the spawned process itself.
pub open spec fn is_direct(c: Candidate, target_pid: u32) -> bool {
    c.owner_pid == target_pid
}

/// A console-host window owned by a child of the spawned process (the
/// conhost a console program gets).
pub open spec fn is_via_parent(c: Candidate, target_pid: u32, parents: Map<u32, u32>) -> bool {
    &&& c.owner_pid != target_pid
    &&& parents.contains_key(c.owner_pid)
    &&& parents[c.owner_pid] == target_pid
    &&& console_class(c.class@)
}

/// A window to hide.
pub open spec fn to_hide(c: Candidate, target_pid: u32, parents: Map<u32, u32>) -> bool {
    is_direct(c, target_pid) || is_via_parent(c, target_pid, parents)
}

/// The windows to hide, in the order found.
pub open spec fn hidden_windows(cands: Seq<Candidate>, target_pid: u32, parents: Map<u32, u32>) -> Seq<
    usize,
>
    decreases cands.len(),
{
    if cands.len() == 0 {
        seq![]
    } else {
        let prev = hidden_windows(cands.drop_last(), target_pid, parents);
        if to_hide(cands.last(), target_pid, parents) {
            prev.push(cands.last().hwnd)
        } else {
            prev
        }
    }
}

/// How many of the windows to hide were visible when found.
pub open spec fn hidden_visible(cands: Seq<Candidate>, target_pid: u32, parents: Map<u32, u32>) -> nat
    decreases cands.len(),
{
    if cands.len() == 0 {
        0
    } else {
        let prev = hidden_visible(cands.drop_last(), target_pid, parents);
        if to_hide(cands.last(), target_pid, parents) && cands.last().was_visible {
            prev + 1
        } else {
            prev
        }
    }
}

/// The class of the first window satisfying `pick`, if any.
pub open spec fn first_class_where(cands: Seq<Candidate>, pick: spec_fn(Candidate) -> bool) -> Option<
    Seq<char>,
>
    decreases cands.len(),
{
    if cands.len() == 0 {
        None
    } else if pick(cands[0]) {
        Some(cands[0].class@)
    } else {
        first_class_where(cands.drop_first(), pick)
    }
}

/// What one hiding pass found and decided.
pub struct PassResult {
    /// The windows to hide, in the order found.
    pub windows: Vec<usize>,
    pub hides: u32,
    pub hides_while_visible: u32,
    /// The class of the first window owned by the process itself.
    pub first_class: Option<String>,
    /// The class of the first console host owned by one of its children.
    pub first_via_parent_class: Option<String>,
}

/// The plain-value form of an optional class.
pub open spec fn opt_view(o: Option<String>) -> Option<Seq<char>> {
    match o {
        Some(s) => Some(s@),
        None => None,
    }
}

proof fn lemma_first_class_step(cands: Seq<Candidate>, i: int, pick: spec_fn(Candidate) -> bool)
    requires
        0 <= i < cands.len(),
        first_class_where(cands.subrange(0, i), pick) is None,
    ensures
        first_class_where(cands.subrange(0, i + 1), pick) == (if pick(cands[i]) {
            Some(cands[i].class@)
        } else {
            None
        }),
    decreases i,
{
    let s = cands.subrange(0, i + 1);
    assert(s[0] == cands[0]);
    if i == 0 {
        assert(s.drop_first() =~= Seq::<Candidate>::empty());
        assert(first_class_where(Seq::<Candidate>::empty(), pick) is None);
    } else {
        assert(!pick(cands[0])) by {
            assert(cands.subrange(0, i)[0] == cands[0]);
        }
        assert(cands.subrange(0, i).drop_first() =~= cands.drop_first().subrange(0, i - 1));
        assert(s.drop_first() =~= cands.drop_first().subrange(0, i));
        lemma_first_class_step(cands.drop_first(), i - 1, pick);
        assert(cands.drop_first()[i - 1] == cands[i]);
    }
}

proof fn lemma_first_class_keep(cands: Seq<Candidate>, i: int, pick: spec_fn(Candidate) -> bool)
    requires
        0 <= i < cands.len(),
        first_class_where(cands.subrange(0, i), pick) is Some,
    ensures
        first_class_where(cands.subrange(0, i + 1), pick) == first_class_where(
            cands.subrange(0, i),
            pick,
        ),
    decreases i,
{
    let s = cands.subrange(0, i + 1);
    if !pick(cands[0]) {
        assert(cands.subrange(0, i)[0] == cands[0]);
        assert(cands.subrange(0, i).drop_first() =~= cands.drop_first().subrange(0, i - 1));
        assert(s.drop_first() =~= cands.drop_first().subrange(0, i));
        lemma_first_class_keep(cands.drop_first(), i - 1, pick);
    } else {
        assert(cands.subrange(0, i)[0] == cands[0]);
    }
}

/// One hiding pass: of the windows found, hide every one the spawned
/// process owns, and every console host owned by one of its children (by
/// the process snapshot's parent map).
pub fn try_hide_once(target_pid: u32, candidates: &Vec<Candidate>, parent_map: &HashMap<u32, u32>) -> (r:
    PassResult)
    requires
        candidates@.len() <= u32::MAX,
    ensures
        r.windows@ == hidden_windows(candidates@, target_pid, parent_map@),
        r.hides as nat == r.windows@.len(),
        r.hides_while_visible as nat == hidden_visible(candidates@, target_pid, parent_map@),
        opt_view(r.first_class) == first_class_where(
            candidates@,
            |c: Candidate| is_direct(c, target_pid),
        ),
        opt_view(r.first_via_parent_class) == first_class_where(
            candidates@,
            |c: Candidate| is_via_parent(c, target_pid, parent_map@),
        ),
{
    let ghost parents = parent_map@;
    let ghost direct_pick = |c: Candidate| is_direct(c, target_pid);
    let ghost via_pick = |c: Candidate| is_via_parent(c, target_pid, parents);
    let mut windows: Vec<usize> = Vec::new();
    let mut hides: u32 = 0;
    let mut visible: u32 = 0;
    let mut first_class: Option<String> = None;
    let mut first_via: Option<String> = None;
    let mut i: usize = 0;
    assert(candidates@.subrange(0, 0) =~= Seq::<Candidate>::empty());
    while i < candidates.len()
        invariant
            candidates@.len() <= u32::MAX,
            i <= candidates@.len(),
            parents == parent_map@,
            direct_pick == (|c: Candidate| is_direct(c, target_pid)),
            via_pick == (|c: Candidate| is_via_parent(c, target_pid, parents)),
            windows@ == hidden_windows(candidates@.subrange(0, i as int), target_pid, parents),
            hides as nat == windows@.len(),
            windows@.len() <= i,
            visible as nat == hidden_visible(candidates@.subrange(0, i as int), target_pid, parents),
            visible <= i,
            opt_view(first_class) == first_class_where(candidates@.subrange(0, i as int), direct_pick),
            opt_view(first_via) == first_class_where(candidates@.subrange(0, i as int), via_pick),
        decreases candidates@.len() - i,
    {
        let c = &candidates[i];
        let direct = c.owner_pid == target_pid;
        let parent_is_target = match parent_map.get(&c.owner_pid) {
            Some(p) => *p == target_pid,
            None => false,
        };
        let via_parent = !direct && parent_is_target && is_console_class(c.class.as_str());
        proof {
            assert(direct == is_direct(*c, target_pid));
            assert(via_parent == is_via_parent(*c, target_pid, parents));
            let s1 = candidates@.subrange(0, i + 1);
            assert(s1.drop_last() =~= candidates@.subrange(0, i as int));
            assert(s1.last() == *c);
            if first_class is None {
                lemma_first_class_step(candidates@, i as int, direct_pick);
            } else {
                lemma_first_class_keep(candidates@, i as int, direct_pick);
            }
            if first_via is None {
                lemma_first_class_step(candidates@, i as int, via_pick);
            } else {
                lemma_first_class_keep(candidates@, i as int, via_pick);
            }
        }
        if direct || via_parent {
            if direct && first_class.is_none() {
                first_class = Some(c.class.clone());
            }
            if via_parent && first_via.is_none() {
                first_via = Some(c.class.clone());
            }
            windows.push(c.hwnd);
            hides += 1;
            if c.was_visible {
                visible += 1;
            }
        }
        i += 1;
    }
    assert(candidates@.subrange(0, candidates@.len() as int) =~= candidates@);
    PassResult {
        windows,
        hides,
        hides_while_visible: visible,
        first_class,
        first_via_parent_class: first_via,
    }
}

/// How long the hiding thread watches a new process, in seconds: the
/// conductor's console window appears only several seconds in.
pub const HIDE_BUDGET_SECS: u64 = 12;

/// The pause between hiding passes, given the time since the process
/// started: quick for the first two seconds (the keystore's window appears
/// at once), slower for the long tail.
pub fn hide_poll_interval_ms(elapsed_ms: u128) -> (r: u64)
    ensures
        r == (if elapsed_ms < 2000 {
            50u64
        } else {
            200u64
        }),
{
    if elapsed_ms < 2000 {
        50
    } else {
        200
    }
}

/// The pauses, in milliseconds, between the window manager's passes: tight
/// early, sparse later, about fifty seconds in all.
pub fn window_manager_delays_ms() -> (r: [u64; 14])
    ensures
        r@ == seq![
            300u64,
            300,
            400,
            500,
            500,
            1000,
            1500,
            2000,
            3000,
            5000,
            5000,
            10000,
            10000,
            10000,
        ],
{
    let r = [300u64, 300, 400, 500, 500, 1000, 1500, 2000, 3000, 5000, 5000, 10000, 10000, 10000];
    assert(r@ =~= seq![
        300u64,
        300,
        400,
        500,
        500,
        1000,
        1500,
        2000,
        3000,
        5000,
        5000,
        10000,
        10000,
        10000,
    ]);
    r
}

/// What the window manager logs after a pass.
#[derive(Clone, Copy, PartialEq, Eq, Structural, Debug)]
pub enum TickLog {
    /// Dump every console-related window (the first sixteen seconds).
    Dump,
    /// Note that windows were hidden again.
    Rehid,
    /// Nothing to log.
    Quiet,
}

/// Decides what to log after a pass, given the time elapsed and how many
/// windows it hid.
pub fn tick_log(elapsed_ms: u64, hidden: u32) -> (r: TickLog)
    ensures
        r == (if elapsed_ms <= 16_000 {
            TickLog::Dump
        } else if hidden > 0 {
            TickLog::Rehid
        } else {
            TickLog::Quiet
        }),
{
    if elapsed_ms <= 16_000 {
        TickLog::Dump
    } else if hidden > 0 {
        TickLog::Rehid
    } else {
        TickLog::Quiet
    }
}

} // verus!
