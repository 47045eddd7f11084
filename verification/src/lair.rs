//! The keystore's configuration and logs: where its connection URL is
//! written in its configuration file, how its logs are excerpted into an
//! error message, and the socket path its URL names.
//!
//! Starting the keystore and reading its files is the caller's.

use vstd::prelude::*;

use crate::codec::{percent_decode_lossy, percent_decoded_lossy};
use crate::conductor::{excerpt, excerpt_of};
use crate::text::{
    find_from, is_blank, lemma_find_from_bounds, owned, starts_with, str_find_from, str_is_blank,
    str_starts_with, str_trim, trim,
};

verus! {

/// The key under which the keystore's configuration holds its URL.
pub open spec fn url_key() -> Seq<char> {
    "connectionUrl:"@
}

/// The connection URL in a keystore configuration, looking at the lines
/// from character position `start` on: the first line that, trimmed,
/// starts with `connectionUrl:`, with the key removed and the rest trimmed.
pub open spec fn config_url_from(content: Seq<char>, start: int) -> Option<Seq<char>>
    decreases content.len() - start,
{
    if start < 0 || start > content.len() {
        None
    } else {
        let newline = find_from(content, "\n"@, start);
        let end = match newline {
            Some(e) => e,
            None => content.len() as int,
        };
        let line = trim(content.subrange(start, end));
        if starts_with(line, url_key()) {
            Some(trim(line.subrange(url_key().len() as int, line.len() as int)))
        } else {
            match newline {
                Some(e) => {
                    proof {
                        reveal_strlit("\n");
                        lemma_find_from_bounds(content, "\n"@, start);
                    }
                    config_url_from(content, e + 1)
                },
                None => None,
            }
        }
    }
}

/// The connection URL a keystore configuration holds, if any.
pub open spec fn config_url(content: Seq<char>) -> Option<Seq<char>> {
    config_url_from(content, 0)
}

/// Finds the keystore's connection URL in the text of its configuration
/// file.
pub fn connection_url_in(content: &str) -> (r: Option<String>)
    ensures
        match r {
            Some(u) => config_url(content@) == Some(u@),
            None => config_url(content@) is None,
        },
{
    proof {
        reveal_strlit("\n");
        reveal_strlit("connectionUrl:");
    }
    let n = content.unicode_len();
    let mut start: usize = 0;
    while start <= n
        invariant
            n == content@.len(),
            config_url_from(content@, 0) == config_url_from(content@, start as int),
        decreases n + 1 - start,
    {
        let newline = str_find_from(content, "\n", start);
        proof {
            reveal_strlit("\n");
            reveal_strlit("connectionUrl:");
            lemma_find_from_bounds(content@, "\n"@, start as int);
        }
        let end = match newline {
            Some(e) => e,
            None => n,
        };
        let line = str_trim(content.substring_char(start, end));
        if str_starts_with(line, "connectionUrl:") {
            let key_len: usize = 14;
            let rest = line.substring_char(key_len, line.unicode_len());
            return Some(owned(str_trim(rest)));
        }
        match newline {
            Some(e) => {
                start = e + 1;
            },
            None => {
                return None;
            },
        }
    }
    None
}

/// The keystore's log text for a stage: its error stream when that holds
/// more than whitespace, else its output stream, trimmed; a placeholder when
/// nothing was captured, and an excerpt when it is long.
pub open spec fn lair_log_text(stderr: Seq<char>, stdout: Seq<char>) -> Seq<char> {
    let trimmed = trim(
        if !is_blank(stderr) {
            stderr
        } else {
            stdout
        },
    );
    if trimmed.len() == 0 {
        "(no output captured)"@
    } else {
        excerpt(trimmed)
    }
}

/// Excerpts the keystore's logs for an error message, given the contents of
/// its error and output log files for one stage (empty when unreadable).
pub fn read_lair_logs(stderr: &str, stdout: &str) -> (r: String)
    ensures
        r@ == lair_log_text(stderr@, stdout@),
{
    let output = if !str_is_blank(stderr) {
        stderr
    } else {
        stdout
    };
    let trimmed = str_trim(output);
    if trimmed.unicode_len() == 0 {
        owned("(no output captured)")
    } else {
        excerpt_of(trimmed)
    }
}

/// The socket path a keystore URL names, given the URL's path, which is
/// percent-encoded (a space in "Application Support" arrives as `%20`).
pub fn lair_socket_path(url_path: &str) -> (r: String)
    ensures
        r@ == percent_decoded_lossy(url_path@),
        !url_path@.contains('%') ==> r@ == url_path@,
{
    percent_decode_lossy(url_path)
}

} // verus!
