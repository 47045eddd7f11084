//! The rules of the earlier poll networks, kept for migration: polls that
//! close in the future, one vote and one flag per agent per poll, deletion
//! only by the author, and the old-to-new hash mappings that migration
//! publishes.
//!
//! Reading and writing the network is the caller's; these functions decide
//! from what it read.

use vstd::prelude::*;

use crate::agent_key::{bytes_equal, contains_key, key_views, AgentPubKey};
use crate::commands::Poll;
use crate::integrity::ActionHash;
use crate::text::owned;

verus! {

/// How many distinct agents must flag a poll before the frontend hides it.
pub const FLAG_HIDE_THRESHOLD: u32 = 3;

/// The flag threshold the frontend hides polls at.
pub fn get_flag_threshold() -> (r: u32)
    ensures
        r == FLAG_HIDE_THRESHOLD,
{
    FLAG_HIDE_THRESHOLD
}

/// The input for creating a poll on the earlier networks.
pub struct CreatePollInput {
    pub title: String,
    pub description: String,
    pub options: Vec<String>,
    pub closes_at: Option<i64>,
}

/// Builds the poll to store at time `now`; a poll must close in the future.
pub fn create_poll(input: CreatePollInput, now: i64) -> (r: Result<Poll, String>)
    ensures
        match input.closes_at {
            Some(c) => c <= now ==> (r matches Err(e) && e@ == "Poll closing time must be in the future"@),
            None => true,
        },
        (input.closes_at matches Some(c) && c <= now) || (r matches Ok(p) && p.title == input.title
            && p.description == input.description && p.options == input.options && p.created_at
            == now && p.closes_at == input.closes_at && p.poll_type is None),
{
    if let Some(c) = input.closes_at {
        if c <= now {
            return Err(owned("Poll closing time must be in the future"));
        }
    }
    Ok(
        Poll {
            title: input.title,
            description: input.description,
            options: input.options,
            created_at: now,
            closes_at: input.closes_at,
            poll_type: None,
        },
    )
}

/// A vote as the earlier networks store it.
pub struct VoteEntry {
    pub poll_action_hash: ActionHash,
    pub option_index: u32,
}

/// What casting a vote checks, in order: the option exists, the poll has
/// not closed, and the agent has not voted on it yet.
pub open spec fn vote_check(
    option_index: u32,
    options_len: nat,
    closes_at: Option<i64>,
    now: i64,
    voters: Seq<Seq<u8>>,
    me: Seq<u8>,
) -> Result<(), Seq<char>> {
    if option_index >= options_len {
        Err("Invalid option index"@)
    } else if closes_at matches Some(c) && now > c {
        Err("Poll is closed"@)
    } else if voters.contains(me) {
        Err("You have already voted on this poll"@)
    } else {
        Ok(())
    }
}

/// Decides a vote on `poll` by `me` at time `now`, given the authors of the
/// votes the poll already has, and builds the vote to store.
pub fn cast_vote(
    poll: &Poll,
    poll_action_hash: ActionHash,
    option_index: u32,
    now: i64,
    voters: &Vec<AgentPubKey>,
    me: &AgentPubKey,
) -> (r: Result<VoteEntry, String>)
    ensures
        match vote_check(
            option_index,
            poll.options@.len(),
            poll.closes_at,
            now,
            key_views(voters@),
            me.raw@,
        ) {
            Ok(_) => r matches Ok(v) && v.poll_action_hash == poll_action_hash && v.option_index
                == option_index,
            Err(m) => r matches Err(e) && e@ == m,
        },
{
    if option_index as usize >= poll.options.len() {
        return Err(owned("Invalid option index"));
    }
    if let Some(c) = poll.closes_at {
        if now > c {
            return Err(owned("Poll is closed"));
        }
    }
    if contains_key(voters, me) {
        return Err(owned("You have already voted on this poll"));
    }
    Ok(VoteEntry { poll_action_hash, option_index })
}

/// One vote per agent per poll: once an agent's vote is on a poll, casting
/// another on it is refused, whatever the option and time.
pub proof fn law_one_vote_per_agent(
    option_index: u32,
    options_len: nat,
    closes_at: Option<i64>,
    now: i64,
    voters: Seq<Seq<u8>>,
    me: Seq<u8>,
)
    ensures
        vote_check(option_index, options_len, closes_at, now, voters.push(me), me) is Err,
{
    assert(voters.push(me)[voters.len() as int] == me);
}

/// An agent who already voted on a poll is refused, wherever their earlier
/// vote stands among the poll's votes, for any option and time that would
/// otherwise be accepted.
pub proof fn law_any_earlier_vote_refuses(
    option_index: u32,
    options_len: nat,
    closes_at: Option<i64>,
    now: i64,
    voters: Seq<Seq<u8>>,
    i: int,
    me: Seq<u8>,
)
    requires
        0 <= i < voters.len(),
        voters[i] == me,
        option_index < options_len,
        closes_at matches Some(c) ==> now <= c,
    ensures
        vote_check(option_index, options_len, closes_at, now, voters, me) == Err::<(), Seq<char>>(
            "You have already voted on this poll"@,
        ),
{
    assert(voters.contains(me));
}

/// An agent with no vote on an open poll may vote for any of its options.
pub proof fn law_first_vote_is_accepted(
    option_index: u32,
    options_len: nat,
    closes_at: Option<i64>,
    now: i64,
    voters: Seq<Seq<u8>>,
    me: Seq<u8>,
)
    requires
        forall|j: int| 0 <= j < voters.len() ==> voters[j] != me,
        option_index < options_len,
        closes_at matches Some(c) ==> now <= c,
    ensures
        vote_check(option_index, options_len, closes_at, now, voters, me) == Ok::<(), Seq<char>>(()),
{
}

/// Why a poll was flagged, as the earlier networks store it.
pub use crate::commands::FlagReason;

/// A flag as the earlier networks store it.
pub struct FlagEntry {
    pub poll_action_hash: ActionHash,
    pub reason: FlagReason,
    pub created_at: i64,
}

/// Decides a flag on a poll by `me` at time `now`, given the authors of the
/// flags the poll already has: one flag per agent per poll.
pub fn flag_poll(poll_action_hash: ActionHash, reason: FlagReason, now: i64, flaggers: &Vec<AgentPubKey>, me: &AgentPubKey) -> (r:
    Result<FlagEntry, String>)
    ensures
        key_views(flaggers@).contains(me.raw@) ==> (r matches Err(e) && e@
            == "You have already flagged this poll"@),
        !key_views(flaggers@).contains(me.raw@) ==> (r matches Ok(f) && f.poll_action_hash
            == poll_action_hash && f.reason == reason && f.created_at == now),
{
    if contains_key(flaggers, me) {
        return Err(owned("You have already flagged this poll"));
    }
    Ok(FlagEntry { poll_action_hash, reason, created_at: now })
}

/// Only a record's author may delete it; `refusal` is the message otherwise.
pub fn require_author(author: &AgentPubKey, me: &AgentPubKey, refusal: &str) -> (r: Result<(), String>)
    ensures
        r is Ok <==> author.raw@ == me.raw@,
        r matches Err(e) ==> e@ == refusal@,
{
    if bytes_equal(author.raw.as_slice(), me.raw.as_slice()) {
        Ok(())
    } else {
        Err(owned(refusal))
    }
}

/// Decides whether `me` may delete a poll written by `author`.
pub fn delete_poll_check(author: &AgentPubKey, me: &AgentPubKey) -> (r: Result<(), String>)
    ensures
        r is Ok <==> author.raw@ == me.raw@,
        r matches Err(e) ==> e@ == "Only the poll creator can delete it"@,
{
    require_author(author, me, "Only the poll creator can delete it")
}

/// Decides whether `me` may remove a flag written by `author`.
pub fn remove_flag_check(author: &AgentPubKey, me: &AgentPubKey) -> (r: Result<(), String>)
    ensures
        r is Ok <==> author.raw@ == me.raw@,
        r matches Err(e) ==> e@ == "Only the flag author can remove it"@,
{
    require_author(author, me, "Only the flag author can remove it")
}

/// The positions, in order, of the links that point at `target`: those
/// deleted with the record.
pub fn links_to(link_targets: &Vec<ActionHash>, target: &ActionHash) -> (r: Vec<usize>)
    ensures
        forall|k: int|
            0 <= k < r@.len() ==> r@[k] < link_targets@.len() && link_targets@[r@[k] as int].raw@
                == target.raw@,
        forall|k: int, l: int| 0 <= k < l < r@.len() ==> r@[k] < r@[l],
        forall|i: int|
            0 <= i < link_targets@.len() && (#[trigger] link_targets@[i]).raw@ == target.raw@ ==> exists|
                k: int,
            | 0 <= k < r@.len() && r@[k] == i,
{
    let mut r: Vec<usize> = Vec::new();
    let mut i: usize = 0;
    while i < link_targets.len()
        invariant
            i <= link_targets@.len(),
            forall|k: int|
                0 <= k < r@.len() ==> r@[k] < i && link_targets@[r@[k] as int].raw@ == target.raw@,
            forall|k: int, l: int| 0 <= k < l < r@.len() ==> r@[k] < r@[l],
            forall|j: int|
                0 <= j < i && (#[trigger] link_targets@[j]).raw@ == target.raw@ ==> exists|k: int|
                    0 <= k < r@.len() && r@[k] == j,
        decreases link_targets@.len() - i,
    {
        let ghost before = r@;
        if bytes_equal(link_targets[i].raw.as_slice(), target.raw.as_slice()) {
            r.push(i);
            assert forall|j: int|
                0 <= j < i + 1 && (#[trigger] link_targets@[j]).raw@ == target.raw@ implies exists|
                    k: int,
                | 0 <= k < r@.len() && r@[k] == j by {
                if j == i {
                    assert(r@[r@.len() - 1] == j);
                } else {
                    let k = choose|k: int| 0 <= k < before.len() && before[k] == j;
                    assert(r@[k] == j);
                }
            }
        }
        i += 1;
    }
    r
}

/// A published mapping from a poll's hash on the previous network to its
/// hash on this one.
pub struct MigratedPoll {
    pub old_action_hash: ActionHash,
    pub new_action_hash: ActionHash,
    pub migrated_at: i64,
}

/// Builds the mapping to publish for a migrated poll at time `now`; the two
/// hashes must differ.
pub fn register_migrated_poll(old_action_hash: ActionHash, new_action_hash: ActionHash, now: i64) -> (r:
    Result<MigratedPoll, String>)
    ensures
        old_action_hash.raw@ == new_action_hash.raw@ ==> (r matches Err(e) && e@
            == "Old and new action hashes must be different"@),
        old_action_hash.raw@ != new_action_hash.raw@ ==> (r matches Ok(m) && m.old_action_hash
            == old_action_hash && m.new_action_hash == new_action_hash && m.migrated_at == now),
{
    if bytes_equal(old_action_hash.raw.as_slice(), new_action_hash.raw.as_slice()) {
        return Err(owned("Old and new action hashes must be different"));
    }
    Ok(MigratedPoll { old_action_hash, new_action_hash, migrated_at: now })
}

/// The new hash of a migrated poll: that of the first published mapping for
/// its old hash, if any.
pub fn get_migration_mapping(mappings: &Vec<MigratedPoll>, old_action_hash: &ActionHash) -> (r: Option<
    ActionHash,
>)
    ensures
        match r {
            Some(h) => exists|i: int|
                0 <= i < mappings@.len() && (#[trigger] mappings@[i]).old_action_hash.raw@
                    == old_action_hash.raw@ && mappings@[i].new_action_hash == h && forall|j: int|
                    0 <= j < i ==> (#[trigger] mappings@[j]).old_action_hash.raw@
                        != old_action_hash.raw@,
            None => forall|i: int|
                0 <= i < mappings@.len() ==> (#[trigger] mappings@[i]).old_action_hash.raw@
                    != old_action_hash.raw@,
        },
{
    let mut i: usize = 0;
    while i < mappings.len()
        invariant
            i <= mappings@.len(),
            forall|j: int|
                0 <= j < i ==> (#[trigger] mappings@[j]).old_action_hash.raw@ != old_action_hash.raw@,
        decreases mappings@.len() - i,
    {
        if bytes_equal(mappings[i].old_action_hash.raw.as_slice(), old_action_hash.raw.as_slice()) {
            return Some(mappings[i].new_action_hash);
        }
        i += 1;
    }
    None
}

} // verus!
