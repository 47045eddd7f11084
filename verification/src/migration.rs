//! Bookkeeping for migrating a user's polls and votes from the previous DNA
//! version to the active one.
//!
//! The migration re-creates each of the user's polls on the new network,
//! publishes the old-to-new hash mapping, and re-casts each of the user's
//! votes once the poll it was cast on has a mapping. A vote whose poll has no
//! mapping yet waits in `votes_pending` until a background retry finds one.
//! The state survives restarts, so every step first checks what was already
//! done: a poll is never created twice, a vote never cast twice, and a
//! pending vote never queued twice.
//!
//! The zome calls and the state file are the caller's; the functions here
//! decide what each answer means and keep the record.

use vstd::prelude::*;

use crate::dna::ACTIVE_APP_ID;
use crate::text::{concat3, contains, str_contains, str_eq};

verus! {

/// The name of the state file of the active version; each version keeps
/// its own, so an earlier migration does not interfere.
pub fn state_file_name() -> (r: String)
    ensures
        r@ == "migration-"@ + ACTIVE_APP_ID@ + "-state.json"@,
{
    concat3("migration-", ACTIVE_APP_ID, "-state.json")
}

/// Where the migration stands.
pub enum MigrationStatus {
    NotStarted,
    InProgress,
    Complete,
    Error(String),
}

/// A poll re-created on the new network.
pub struct MigratedPollRecord {
    pub old_hash: String,
    pub new_hash: String,
    pub title: String,
}

/// A vote waiting for its poll to be migrated by the poll's author.
pub struct PendingVote {
    /// Hash of the poll on the source network.
    pub source_poll_hash: String,
    pub option_index: u32,
    pub poll_title: String,
    pub retry_count: u32,
}

/// A vote re-cast on the new network.
pub struct MigratedVoteRecord {
    pub old_poll_hash: String,
    pub new_poll_hash: String,
    pub option_index: u32,
}

/// The persisted state of a migration.
pub struct MigrationState {
    pub status: MigrationStatus,
    pub polls_migrated: Vec<MigratedPollRecord>,
    pub votes_pending: Vec<PendingVote>,
    pub votes_migrated: Vec<MigratedVoteRecord>,
}

impl Default for MigrationState {
    fn default() -> (r: Self)
        ensures
            r.status is NotStarted,
            r.polls_migrated@.len() == 0,
            r.votes_pending@.len() == 0,
            r.votes_migrated@.len() == 0,
            r.unique(),
    {
        MigrationState {
            status: MigrationStatus::NotStarted,
            polls_migrated: Vec::new(),
            votes_pending: Vec::new(),
            votes_migrated: Vec::new(),
        }
    }
}

/// A poll with source hash `old_hash` has been re-created.
pub open spec fn poll_recorded(polls: Seq<MigratedPollRecord>, old_hash: Seq<char>) -> bool {
    exists|i: int| 0 <= i < polls.len() && (#[trigger] polls[i]).old_hash@ == old_hash
}

/// A vote for option `option_index` of the source poll `old_poll_hash` has
/// been re-cast.
pub open spec fn vote_recorded(
    votes: Seq<MigratedVoteRecord>,
    old_poll_hash: Seq<char>,
    option_index: u32,
) -> bool {
    exists|i: int|
        0 <= i < votes.len() && (#[trigger] votes[i]).old_poll_hash@ == old_poll_hash
            && votes[i].option_index == option_index
}

/// Two pending votes are for the same option of the same source poll.
pub open spec fn same_vote(a: PendingVote, b: PendingVote) -> bool {
    a.source_poll_hash@ == b.source_poll_hash@ && a.option_index == b.option_index
}

/// A vote for option `option_index` of `source_poll_hash` is pending.
pub open spec fn vote_pending(
    pending: Seq<PendingVote>,
    source_poll_hash: Seq<char>,
    option_index: u32,
) -> bool {
    exists|i: int|
        0 <= i < pending.len() && (#[trigger] pending[i]).source_poll_hash@ == source_poll_hash
            && pending[i].option_index == option_index
}

/// No source poll is recorded twice.
pub open spec fn polls_unique(polls: Seq<MigratedPollRecord>) -> bool {
    forall|i: int, j: int|
        0 <= i < j < polls.len() ==> (#[trigger] polls[i]).old_hash@ != (#[trigger] polls[j]).old_hash@
}

/// No vote is pending twice.
pub open spec fn pending_unique(pending: Seq<PendingVote>) -> bool {
    forall|i: int, j: int|
        0 <= i < j < pending.len() ==> !same_vote(#[trigger] pending[i], #[trigger] pending[j])
}

/// What a cast of a migrated vote came to.
#[derive(Clone, Copy, PartialEq, Eq, Structural, Debug)]
pub enum CastOutcome {
    /// The vote was cast.
    Cast,
    /// The new network already holds this agent's vote on the poll.
    AlreadyVoted,
    /// The cast failed for another reason; the vote is not recorded.
    Failed,
}

/// What a cast's result comes to: an error that says the agent already
/// voted counts as done.
pub open spec fn cast_outcome(result: Result<(), Seq<char>>) -> CastOutcome {
    match result {
        Ok(_) => CastOutcome::Cast,
        Err(e) => if contains(e, "already voted"@) {
            CastOutcome::AlreadyVoted
        } else {
            CastOutcome::Failed
        },
    }
}

/// The plain-value form of a cast's result.
pub open spec fn cast_view(result: Result<(), String>) -> Result<(), Seq<char>> {
    match result {
        Ok(_) => Ok(()),
        Err(e) => Err(e@),
    }
}

/// Classifies the result of casting a migrated vote.
pub fn classify_cast(result: &Result<(), String>) -> (r: CastOutcome)
    ensures
        r == cast_outcome(cast_view(*result)),
{
    match result {
        Ok(_) => CastOutcome::Cast,
        Err(e) => if str_contains(e.as_str(), "already voted") {
            CastOutcome::AlreadyVoted
        } else {
            CastOutcome::Failed
        },
    }
}

/// A pending vote whose poll turned out to be migrated, and the hash of that
/// poll on the new network.
pub struct ResolvedVote {
    pub source_poll_hash: String,
    pub option_index: u32,
    pub new_poll_hash: String,
}

/// Settles one pending vote in a retry round, given the hash of its poll on
/// the new network and the result of casting it there: resolved when it was
/// cast, or had been already.
pub fn retry_resolution(vote: &PendingVote, new_poll_hash: String, result: &Result<(), String>) -> (r:
    Option<ResolvedVote>)
    ensures
        cast_outcome(cast_view(*result)) == CastOutcome::Failed ==> r is None,
        cast_outcome(cast_view(*result)) != CastOutcome::Failed ==> (r matches Some(rv)
            && rv.source_poll_hash == vote.source_poll_hash && rv.option_index == vote.option_index
            && rv.new_poll_hash == new_poll_hash),
{
    match classify_cast(result) {
        CastOutcome::Failed => None,
        _ => Some(
            ResolvedVote {
                source_poll_hash: vote.source_poll_hash.clone(),
                option_index: vote.option_index,
                new_poll_hash,
            },
        ),
    }
}

/// `v` is one of the resolved votes.
pub open spec fn is_resolved(resolved: Seq<ResolvedVote>, v: PendingVote) -> bool {
    exists|k: int|
        0 <= k < resolved.len() && (#[trigger] resolved[k]).source_poll_hash@
            == v.source_poll_hash@ && resolved[k].option_index == v.option_index
}

/// The pending votes that stay pending once `resolved` are settled.
pub open spec fn still_pending(pending: Seq<PendingVote>, resolved: Seq<ResolvedVote>) -> Seq<
    PendingVote,
> {
    pending.filter(|v: PendingVote| !is_resolved(resolved, v))
}

/// The record kept for a resolved vote.
pub open spec fn resolved_record(r: ResolvedVote) -> MigratedVoteRecord {
    MigratedVoteRecord {
        old_poll_hash: r.source_poll_hash,
        new_poll_hash: r.new_poll_hash,
        option_index: r.option_index,
    }
}

/// The indices, in order, of the entries of `authors` equal to `me`: which
/// of the exported polls (or votes) are the user's own.
pub fn authored_by(authors: &Vec<String>, me: &str) -> (r: Vec<usize>)
    ensures
        forall|k: int| 0 <= k < r@.len() ==> r@[k] < authors@.len() && authors@[r@[k] as int]@ == me@,
        forall|k: int, l: int| 0 <= k < l < r@.len() ==> r@[k] < r@[l],
        forall|i: int|
            0 <= i < authors@.len() && authors@[i]@ == me@ ==> exists|k: int|
                0 <= k < r@.len() && r@[k] == i,
{
    let mut r: Vec<usize> = Vec::new();
    let mut i: usize = 0;
    while i < authors.len()
        invariant
            i <= authors@.len(),
            forall|k: int| 0 <= k < r@.len() ==> r@[k] < i && authors@[r@[k] as int]@ == me@,
            forall|k: int, l: int| 0 <= k < l < r@.len() ==> r@[k] < r@[l],
            forall|j: int|
                0 <= j < i && authors@[j]@ == me@ ==> exists|k: int| 0 <= k < r@.len() && r@[k] == j,
        decreases authors@.len() - i,
    {
        let ghost before = r@;
        if str_eq(authors[i].as_str(), me) {
            r.push(i);
            assert forall|j: int|
                0 <= j < i + 1 && authors@[j]@ == me@ implies exists|k: int|
                    0 <= k < r@.len() && r@[k] == j by {
                if j == i {
                    assert(r@[r@.len() - 1] == j);
                } else {
                    let k = choose|k: int| 0 <= k < before.len() && before[k] == j;
                    assert(r@[k] == j);
                }
            }
        }
        i += 1;
    }
    r
}

impl MigrationState {
    /// The state's bookkeeping holds each source poll and each pending vote
    /// once; every operation below keeps it so.
    pub open spec fn unique(&self) -> bool {
        polls_unique(self.polls_migrated@) && pending_unique(self.votes_pending@)
    }

    /// Whether the migration has completed.
    pub fn is_complete(&self) -> (r: bool)
        ensures
            r == (self.status is Complete),
    {
        match self.status {
            MigrationStatus::Complete => true,
            _ => false,
        }
    }

    /// Whether a poll with source hash `old_hash` has been re-created.
    pub fn has_poll(&self, old_hash: &str) -> (r: bool)
        ensures
            r == poll_recorded(self.polls_migrated@, old_hash@),
    {
        let mut i: usize = 0;
        while i < self.polls_migrated.len()
            invariant
                i <= self.polls_migrated@.len(),
                forall|j: int| 0 <= j < i ==> (#[trigger] self.polls_migrated@[j]).old_hash@ != old_hash@,
            decreases self.polls_migrated@.len() - i,
        {
            if str_eq(self.polls_migrated[i].old_hash.as_str(), old_hash) {
                assert(self.polls_migrated@[i as int].old_hash@ == old_hash@);
                return true;
            }
            i += 1;
        }
        false
    }

    /// Records a re-created poll; from then on the poll counts as migrated
    /// and is never created again.
    pub fn record_poll(&mut self, old_hash: String, new_hash: String, title: String)
        ensures
            final(self).polls_migrated@ == old(self).polls_migrated@.push(
                MigratedPollRecord { old_hash, new_hash, title },
            ),
            poll_recorded(final(self).polls_migrated@, old_hash@),
            old(self).unique() && !poll_recorded(old(self).polls_migrated@, old_hash@)
                ==> final(self).unique(),
            final(self).status == old(self).status,
            final(self).votes_pending@ == old(self).votes_pending@,
            final(self).votes_migrated@ == old(self).votes_migrated@,
    {
        let ghost key = old_hash@;
        let ghost before = self.polls_migrated@;
        self.polls_migrated.push(MigratedPollRecord { old_hash, new_hash, title });
        assert(self.polls_migrated@[self.polls_migrated@.len() - 1].old_hash@ == key);
        proof {
            let after = self.polls_migrated@;
            if polls_unique(before) && !poll_recorded(before, key) {
                assert forall|i: int, j: int| 0 <= i < j < after.len() implies (#[trigger] after[i]).old_hash@
                    != (#[trigger] after[j]).old_hash@ by {
                    assert(after[i] == before[i]);
                    if j < before.len() {
                        assert(after[j] == before[j]);
                    } else {
                        assert(before[i].old_hash@ != key);
                    }
                }
            }
        }
    }

    /// Records that the source poll `old_hash` now lives at `new_hash` on
    /// the new network (re-created there now, or found mapped from an
    /// earlier run), unless it is recorded already; `true` when it was
    /// recorded now.
    pub fn migrate_poll(&mut self, old_hash: String, new_hash: String, title: String) -> (r: bool)
        ensures
            r == !poll_recorded(old(self).polls_migrated@, old_hash@),
            books(*final(self)) == apply_op(
                books(*old(self)),
                MigrationOp::MigratePoll { old_hash, new_hash, title },
            ),
            poll_recorded(final(self).polls_migrated@, old_hash@),
            old(self).unique() ==> final(self).unique(),
            final(self).status == old(self).status,
    {
        if self.has_poll(old_hash.as_str()) {
            return false;
        }
        self.record_poll(old_hash, new_hash, title);
        true
    }

    /// Whether the vote for option `option_index` of the source poll
    /// `old_poll_hash` has been re-cast.
    pub fn has_vote(&self, old_poll_hash: &str, option_index: u32) -> (r: bool)
        ensures
            r == vote_recorded(self.votes_migrated@, old_poll_hash@, option_index),
    {
        let mut i: usize = 0;
        while i < self.votes_migrated.len()
            invariant
                i <= self.votes_migrated@.len(),
                forall|j: int|
                    0 <= j < i ==> !((#[trigger] self.votes_migrated@[j]).old_poll_hash@
                        == old_poll_hash@ && self.votes_migrated@[j].option_index == option_index),
            decreases self.votes_migrated@.len() - i,
        {
            if self.votes_migrated[i].option_index == option_index && str_eq(
                self.votes_migrated[i].old_poll_hash.as_str(),
                old_poll_hash,
            ) {
                assert(self.votes_migrated@[i as int].old_poll_hash@ == old_poll_hash@);
                return true;
            }
            i += 1;
        }
        false
    }

    /// Records a re-cast vote; from then on the vote counts as migrated and
    /// is never cast again.
    pub fn record_vote(&mut self, old_poll_hash: String, new_poll_hash: String, option_index: u32)
        ensures
            final(self).votes_migrated@ == old(self).votes_migrated@.push(
                MigratedVoteRecord { old_poll_hash, new_poll_hash, option_index },
            ),
            vote_recorded(final(self).votes_migrated@, old_poll_hash@, option_index),
            old(self).unique() ==> final(self).unique(),
            final(self).status == old(self).status,
            final(self).polls_migrated@ == old(self).polls_migrated@,
            final(self).votes_pending@ == old(self).votes_pending@,
    {
        let ghost key = old_poll_hash@;
        self.votes_migrated.push(MigratedVoteRecord { old_poll_hash, new_poll_hash, option_index });
        assert(self.votes_migrated@[self.votes_migrated@.len() - 1].old_poll_hash@ == key);
    }

    /// Settles the cast of a migrated vote: a cast vote, or one the new
    /// network says was already cast, is recorded; any other failure leaves
    /// the state as it was.
    pub fn settle_cast(
        &mut self,
        old_poll_hash: String,
        new_poll_hash: String,
        option_index: u32,
        result: &Result<(), String>,
    ) -> (r: CastOutcome)
        ensures
            r == cast_outcome(cast_view(*result)),
            r != CastOutcome::Failed ==> final(self).votes_migrated@ == old(
                self,
            ).votes_migrated@.push(
                MigratedVoteRecord { old_poll_hash, new_poll_hash, option_index },
            ),
            r == CastOutcome::Failed ==> final(self).votes_migrated@ == old(self).votes_migrated@,
            books(*final(self)) == apply_op(
                books(*old(self)),
                MigrationOp::SettleCast { old_poll_hash, new_poll_hash, option_index, outcome: r },
            ),
            old(self).unique() ==> final(self).unique(),
            final(self).status == old(self).status,
            final(self).polls_migrated@ == old(self).polls_migrated@,
            final(self).votes_pending@ == old(self).votes_pending@,
    {
        let outcome = classify_cast(result);
        match outcome {
            CastOutcome::Failed => {},
            _ => self.record_vote(old_poll_hash, new_poll_hash, option_index),
        }
        outcome
    }

    /// Whether the vote for option `option_index` of `source_poll_hash` is
    /// pending.
    pub fn has_pending(&self, source_poll_hash: &str, option_index: u32) -> (r: bool)
        ensures
            r == vote_pending(self.votes_pending@, source_poll_hash@, option_index),
    {
        let mut i: usize = 0;
        while i < self.votes_pending.len()
            invariant
                i <= self.votes_pending@.len(),
                forall|j: int|
                    0 <= j < i ==> !((#[trigger] self.votes_pending@[j]).source_poll_hash@
                        == source_poll_hash@ && self.votes_pending@[j].option_index == option_index),
            decreases self.votes_pending@.len() - i,
        {
            if self.votes_pending[i].option_index == option_index && str_eq(
                self.votes_pending[i].source_poll_hash.as_str(),
                source_poll_hash,
            ) {
                assert(self.votes_pending@[i as int].source_poll_hash@ == source_poll_hash@);
                return true;
            }
            i += 1;
        }
        false
    }

    /// Queues a vote whose poll has no mapping yet, unless it is already
    /// queued. Returns whether it was added.
    pub fn add_pending_vote(&mut self, source_poll_hash: String, option_index: u32, poll_title: String) -> (r:
        bool)
        ensures
            r == !vote_pending(old(self).votes_pending@, source_poll_hash@, option_index),
            r ==> final(self).votes_pending@ == old(self).votes_pending@.push(
                PendingVote { source_poll_hash, option_index, poll_title, retry_count: 0 },
            ),
            !r ==> final(self).votes_pending@ == old(self).votes_pending@,
            vote_pending(final(self).votes_pending@, source_poll_hash@, option_index),
            books(*final(self)) == apply_op(
                books(*old(self)),
                MigrationOp::QueueVote { source_poll_hash, option_index, poll_title },
            ),
            pending_unique(old(self).votes_pending@) ==> pending_unique(final(self).votes_pending@),
            old(self).unique() ==> final(self).unique(),
            final(self).status == old(self).status,
            final(self).polls_migrated@ == old(self).polls_migrated@,
            final(self).votes_migrated@ == old(self).votes_migrated@,
    {
        if self.has_pending(source_poll_hash.as_str(), option_index) {
            return false;
        }
        let ghost before = self.votes_pending@;
        let v = PendingVote { source_poll_hash, option_index, poll_title, retry_count: 0 };
        self.votes_pending.push(v);
        proof {
            let after = self.votes_pending@;
            assert(after[after.len() - 1] == v);
            assert(vote_pending(after, v.source_poll_hash@, option_index));
            if pending_unique(before) {
                assert forall|i: int, j: int| 0 <= i < j < after.len() implies !same_vote(
                    #[trigger] after[i],
                    #[trigger] after[j],
                ) by {
                    if j == after.len() - 1 {
                        assert(after[i] == before[i]);
                    } else {
                        assert(after[i] == before[i] && after[j] == before[j]);
                    }
                }
            }
        }
        true
    }

    /// Gives up on every pending vote.
    pub fn abandon_pending_votes(&mut self)
        ensures
            final(self).votes_pending@.len() == 0,
            books(*final(self)) == apply_op(books(*old(self)), MigrationOp::Abandon),
            old(self).unique() ==> final(self).unique(),
            final(self).status == old(self).status,
            final(self).polls_migrated@ == old(self).polls_migrated@,
            final(self).votes_migrated@ == old(self).votes_migrated@,
    {
        self.votes_pending.clear();
    }

    /// Whether any vote is still pending.
    pub fn has_pending_votes(&self) -> (r: bool)
        ensures
            r == (self.votes_pending@.len() > 0),
    {
        self.votes_pending.len() > 0
    }

    /// Settles the votes a retry round resolved: each leaves the pending
    /// queue and is recorded as migrated, in the order given.
    pub fn apply_retry_results(&mut self, resolved: &Vec<ResolvedVote>)
        ensures
            final(self).votes_pending@ == still_pending(old(self).votes_pending@, resolved@),
            final(self).votes_migrated@ == old(self).votes_migrated@ + resolved@.map_values(
                |r: ResolvedVote| resolved_record(r),
            ),
            forall|k: int|
                0 <= k < resolved@.len() ==> !vote_pending(
                    final(self).votes_pending@,
                    (#[trigger] resolved@[k]).source_poll_hash@,
                    resolved@[k].option_index,
                ),
            pending_unique(old(self).votes_pending@) ==> pending_unique(final(self).votes_pending@),
            old(self).unique() ==> final(self).unique(),
            final(self).status == old(self).status,
            final(self).polls_migrated@ == old(self).polls_migrated@,
    {
        let ghost old_pending = self.votes_pending@;
        let ghost status = self.status;
        let ghost polls = self.polls_migrated@;
        let ghost pred = |v: PendingVote| !is_resolved(resolved@, v);
        let mut kept: Vec<PendingVote> = Vec::new();
        let mut pending = Vec::new();
        std::mem::swap(&mut pending, &mut self.votes_pending);
        let mut i: usize = 0;
        while i < pending.len()
            invariant
                pending@ == old_pending,
                i <= pending@.len(),
                pred == (|v: PendingVote| !is_resolved(resolved@, v)),
                kept@ == pending@.subrange(0, i as int).filter(pred),
                self.votes_pending@.len() == 0,
                self.status == status,
                self.polls_migrated@ == polls,
            decreases pending@.len() - i,
        {
            let keep = !self.resolves(resolved, &pending[i]);
            if keep {
                kept.push(clone_pending(&pending[i]));
            }
            proof {
                let s1 = pending@.subrange(0, i + 1);
                assert(s1.drop_last() =~= pending@.subrange(0, i as int));
                assert(s1.last() == pending@[i as int]);
                assert(pred(pending@[i as int]) == keep);
                reveal(Seq::filter);
            }
            i += 1;
        }
        assert(pending@.subrange(0, pending@.len() as int) =~= pending@);
        self.votes_pending = kept;
        let ghost migrated_before = self.votes_migrated@;
        let mut k: usize = 0;
        while k < resolved.len()
            invariant
                k <= resolved@.len(),
                self.votes_migrated@ == migrated_before + resolved@.subrange(0, k as int).map_values(
                    |r: ResolvedVote| resolved_record(r),
                ),
                self.votes_pending@ == old_pending.filter(pred),
                self.status == status,
                self.polls_migrated@ == polls,
            decreases resolved@.len() - k,
        {
            let r = &resolved[k];
            self.votes_migrated.push(
                MigratedVoteRecord {
                    old_poll_hash: r.source_poll_hash.clone(),
                    new_poll_hash: r.new_poll_hash.clone(),
                    option_index: r.option_index,
                },
            );
            assert(resolved@.subrange(0, k + 1).map_values(|r: ResolvedVote| resolved_record(r))
                =~= resolved@.subrange(0, k as int).map_values(|r: ResolvedVote| resolved_record(r)).push(
                resolved_record(resolved@[k as int]),
            ));
            k += 1;
        }
        assert(resolved@.subrange(0, resolved@.len() as int) =~= resolved@);
        proof {
            let fin = self.votes_pending@;
            assert forall|k: int| 0 <= k < resolved@.len() implies !vote_pending(
                fin,
                (#[trigger] resolved@[k]).source_poll_hash@,
                resolved@[k].option_index,
            ) by {
                if vote_pending(fin, resolved@[k].source_poll_hash@, resolved@[k].option_index) {
                    let j = choose|j: int|
                        0 <= j < fin.len() && (#[trigger] fin[j]).source_poll_hash@
                            == resolved@[k].source_poll_hash@ && fin[j].option_index
                            == resolved@[k].option_index;
                    old_pending.lemma_filter_pred(pred, j);
                    assert(is_resolved(resolved@, fin[j]));
                }
            }
            if pending_unique(old_pending) {
                lemma_filter_keeps_unique(old_pending, pred);
            }
        }
    }

    /// Closes one retry round: the votes it resolved leave the pending queue
    /// and are recorded as migrated, in the order given, and every vote
    /// still pending has one more retry counted against it.
    pub fn finish_retry_tick(&mut self, resolved: &Vec<ResolvedVote>)
        requires
            forall|i: int|
                0 <= i < old(self).votes_pending@.len() ==> (#[trigger] old(
                    self,
                ).votes_pending@[i]).retry_count < u32::MAX,
        ensures
            final(self).votes_pending@.len() == still_pending(old(self).votes_pending@, resolved@).len(),
            forall|i: int|
                0 <= i < final(self).votes_pending@.len() ==> {
                    let a = #[trigger] final(self).votes_pending@[i];
                    let b = still_pending(old(self).votes_pending@, resolved@)[i];
                    &&& a.source_poll_hash == b.source_poll_hash
                    &&& a.option_index == b.option_index
                    &&& a.poll_title == b.poll_title
                    &&& a.retry_count == b.retry_count + 1
                },
            final(self).votes_migrated@ == old(self).votes_migrated@ + resolved@.map_values(
                |r: ResolvedVote| resolved_record(r),
            ),
            forall|k: int|
                0 <= k < resolved@.len() ==> !vote_pending(
                    final(self).votes_pending@,
                    (#[trigger] resolved@[k]).source_poll_hash@,
                    resolved@[k].option_index,
                ),
            books(*final(self)) == apply_op(
                books(*old(self)),
                MigrationOp::FinishTick { resolved: *resolved },
            ),
            old(self).unique() ==> final(self).unique(),
            final(self).status == old(self).status,
            final(self).polls_migrated@ == old(self).polls_migrated@,
    {
        let ghost before = self.votes_pending@;
        self.apply_retry_results(resolved);
        proof {
            let kept = self.votes_pending@;
            assert forall|i: int| 0 <= i < kept.len() implies (#[trigger] kept[i]).retry_count
                < u32::MAX by {
                lemma_filter_subset(before, |v: PendingVote| !is_resolved(resolved@, v), i);
            }
        }
        let ghost mid = self.votes_pending@;
        self.increment_retry_counts();
        proof {
            assert forall|k: int| 0 <= k < resolved@.len() implies !vote_pending(
                self.votes_pending@,
                (#[trigger] resolved@[k]).source_poll_hash@,
                resolved@[k].option_index,
            ) by {
                if vote_pending(self.votes_pending@, resolved@[k].source_poll_hash@, resolved@[k].option_index) {
                    let j = choose|j: int|
                        0 <= j < self.votes_pending@.len() && (#[trigger] self.votes_pending@[j]).source_poll_hash@
                            == resolved@[k].source_poll_hash@ && self.votes_pending@[j].option_index
                            == resolved@[k].option_index;
                    assert(mid[j].source_poll_hash == self.votes_pending@[j].source_poll_hash);
                    assert(vote_pending(mid, resolved@[k].source_poll_hash@, resolved@[k].option_index));
                }
            }
        }
    }

    /// Whether `v` is one of the resolved votes.
    fn resolves(&self, resolved: &Vec<ResolvedVote>, v: &PendingVote) -> (r: bool)
        ensures
            r == is_resolved(resolved@, *v),
    {
        let mut k: usize = 0;
        while k < resolved.len()
            invariant
                k <= resolved@.len(),
                forall|j: int|
                    0 <= j < k ==> !((#[trigger] resolved@[j]).source_poll_hash@
                        == v.source_poll_hash@ && resolved@[j].option_index == v.option_index),
            decreases resolved@.len() - k,
        {
            if resolved[k].option_index == v.option_index && str_eq(
                resolved[k].source_poll_hash.as_str(),
                v.source_poll_hash.as_str(),
            ) {
                assert(resolved@[k as int].source_poll_hash@ == v.source_poll_hash@);
                return true;
            }
            k += 1;
        }
        false
    }

    /// Counts one more retry round against every pending vote.
    pub fn increment_retry_counts(&mut self)
        requires
            forall|i: int|
                0 <= i < old(self).votes_pending@.len() ==> (#[trigger] old(
                    self,
                ).votes_pending@[i]).retry_count < u32::MAX,
        ensures
            final(self).votes_pending@.len() == old(self).votes_pending@.len(),
            forall|i: int|
                0 <= i < final(self).votes_pending@.len() ==> {
                    let a = #[trigger] final(self).votes_pending@[i];
                    let b = old(self).votes_pending@[i];
                    &&& a.source_poll_hash == b.source_poll_hash
                    &&& a.option_index == b.option_index
                    &&& a.poll_title == b.poll_title
                    &&& a.retry_count == b.retry_count + 1
                },
            pending_unique(old(self).votes_pending@) ==> pending_unique(final(self).votes_pending@),
            old(self).unique() ==> final(self).unique(),
            final(self).status == old(self).status,
            final(self).polls_migrated@ == old(self).polls_migrated@,
            final(self).votes_migrated@ == old(self).votes_migrated@,
    {
        let ghost before = self.votes_pending@;
        let mut pending = Vec::new();
        std::mem::swap(&mut pending, &mut self.votes_pending);
        let mut bumped: Vec<PendingVote> = Vec::new();
        let mut i: usize = 0;
        while i < pending.len()
            invariant
                pending@ == before,
                i <= before.len(),
                bumped@.len() == i,
                forall|j: int|
                    0 <= j < before.len() ==> (#[trigger] before[j]).retry_count < u32::MAX,
                forall|j: int|
                    0 <= j < i ==> {
                        let a = #[trigger] bumped@[j];
                        let b = before[j];
                        &&& a.source_poll_hash == b.source_poll_hash
                        &&& a.option_index == b.option_index
                        &&& a.poll_title == b.poll_title
                        &&& a.retry_count == b.retry_count + 1
                    },
            decreases before.len() - i,
        {
            let v = &pending[i];
            bumped.push(
                PendingVote {
                    source_poll_hash: v.source_poll_hash.clone(),
                    option_index: v.option_index,
                    poll_title: v.poll_title.clone(),
                    retry_count: v.retry_count + 1,
                },
            );
            i += 1;
        }
        self.votes_pending = bumped;
        proof {
            let after = self.votes_pending@;
            if pending_unique(before) {
                assert forall|i: int, j: int| 0 <= i < j < after.len() implies !same_vote(
                    #[trigger] after[i],
                    #[trigger] after[j],
                ) by {
                    assert(!same_vote(before[i], before[j]));
                }
            }
        }
    }
}

/// A copy of a pending vote.
fn clone_pending(v: &PendingVote) -> (r: PendingVote)
    ensures
        r == *v,
{
    PendingVote {
        source_poll_hash: v.source_poll_hash.clone(),
        option_index: v.option_index,
        poll_title: v.poll_title.clone(),
        retry_count: v.retry_count,
    }
}

/// Every element that filtering keeps was in the sequence.
proof fn lemma_filter_subset(s: Seq<PendingVote>, pred: spec_fn(PendingVote) -> bool, i: int)
    requires
        0 <= i < s.filter(pred).len(),
    ensures
        s.contains(s.filter(pred)[i]),
    decreases s.len(),
{
    reveal(Seq::filter);
    let sub = s.drop_last().filter(pred);
    if i < sub.len() {
        lemma_filter_subset(s.drop_last(), pred, i);
        let j = choose|j: int| 0 <= j < s.drop_last().len() && s.drop_last()[j] == sub[i];
        assert(s[j] == sub[i]);
    } else {
        assert(s[s.len() - 1] == s.filter(pred)[i]);
    }
}

/// Filtering a queue with no vote twice leaves a queue with no vote twice.
proof fn lemma_filter_keeps_unique(s: Seq<PendingVote>, pred: spec_fn(PendingVote) -> bool)
    requires
        pending_unique(s),
    ensures
        pending_unique(s.filter(pred)),
    decreases s.len(),
{
    reveal(Seq::filter);
    if s.len() > 0 {
        let t = s.drop_last();
        assert(pending_unique(t)) by {
            assert forall|i: int, j: int| 0 <= i < j < t.len() implies !same_vote(
                #[trigger] t[i],
                #[trigger] t[j],
            ) by {
                assert(t[i] == s[i] && t[j] == s[j]);
            }
        }
        lemma_filter_keeps_unique(t, pred);
        let sub = t.filter(pred);
        let out = s.filter(pred);
        if pred(s.last()) {
            assert forall|i: int, j: int| 0 <= i < j < out.len() implies !same_vote(
                #[trigger] out[i],
                #[trigger] out[j],
            ) by {
                if j == out.len() - 1 {
                    lemma_filter_subset(t, pred, i);
                    let m = choose|m: int| 0 <= m < t.len() && t[m] == sub[i];
                    assert(s[m] == out[i]);
                    assert(!same_vote(s[m], s[s.len() - 1]));
                } else {
                    assert(out[i] == sub[i] && out[j] == sub[j]);
                }
            }
        }
    }
}


/// One operation of a migration run on the state's bookkeeping, as the
/// methods of [`MigrationState`] perform it.
pub enum MigrationOp {
    /// [`MigrationState::migrate_poll`].
    MigratePoll { old_hash: String, new_hash: String, title: String },
    /// [`MigrationState::settle_cast`], with the outcome it came to.
    SettleCast { old_poll_hash: String, new_poll_hash: String, option_index: u32, outcome: CastOutcome },
    /// [`MigrationState::add_pending_vote`].
    QueueVote { source_poll_hash: String, option_index: u32, poll_title: String },
    /// [`MigrationState::finish_retry_tick`].
    FinishTick { resolved: Vec<ResolvedVote> },
    /// [`MigrationState::abandon_pending_votes`].
    Abandon,
}

/// The bookkeeping of a migration state: the polls re-created, the votes
/// pending and the votes re-cast.
pub open spec fn books(s: MigrationState) -> (Seq<MigratedPollRecord>, Seq<PendingVote>, Seq<MigratedVoteRecord>) {
    (s.polls_migrated@, s.votes_pending@, s.votes_migrated@)
}

/// Each source poll is recorded once and each vote is pending once.
pub open spec fn books_unique(b: (Seq<MigratedPollRecord>, Seq<PendingVote>, Seq<MigratedVoteRecord>)) -> bool {
    polls_unique(b.0) && pending_unique(b.1)
}

/// `v` with one more retry counted.
pub open spec fn bumped(v: PendingVote) -> PendingVote {
    PendingVote {
        source_poll_hash: v.source_poll_hash,
        option_index: v.option_index,
        poll_title: v.poll_title,
        retry_count: (v.retry_count + 1) as u32,
    }
}

/// The bookkeeping after one operation.
pub open spec fn apply_op(
    b: (Seq<MigratedPollRecord>, Seq<PendingVote>, Seq<MigratedVoteRecord>),
    op: MigrationOp,
) -> (Seq<MigratedPollRecord>, Seq<PendingVote>, Seq<MigratedVoteRecord>) {
    match op {
        MigrationOp::MigratePoll { old_hash, new_hash, title } => if poll_recorded(b.0, old_hash@) {
            b
        } else {
            (b.0.push(MigratedPollRecord { old_hash, new_hash, title }), b.1, b.2)
        },
        MigrationOp::SettleCast { old_poll_hash, new_poll_hash, option_index, outcome } => if outcome
            == CastOutcome::Failed {
            b
        } else {
            (b.0, b.1, b.2.push(MigratedVoteRecord { old_poll_hash, new_poll_hash, option_index }))
        },
        MigrationOp::QueueVote { source_poll_hash, option_index, poll_title } => if vote_pending(
            b.1,
            source_poll_hash@,
            option_index,
        ) {
            b
        } else {
            (b.0, b.1.push(PendingVote { source_poll_hash, option_index, poll_title, retry_count: 0 }), b.2)
        },
        MigrationOp::FinishTick { resolved } => (
            b.0,
            still_pending(b.1, resolved@).map_values(|v: PendingVote| bumped(v)),
            b.2 + resolved@.map_values(|r: ResolvedVote| resolved_record(r)),
        ),
        MigrationOp::Abandon => (b.0, Seq::empty(), b.2),
    }
}

/// The bookkeeping after a run of operations, in order.
pub open spec fn apply_ops(
    b: (Seq<MigratedPollRecord>, Seq<PendingVote>, Seq<MigratedVoteRecord>),
    ops: Seq<MigrationOp>,
) -> (Seq<MigratedPollRecord>, Seq<PendingVote>, Seq<MigratedVoteRecord>)
    decreases ops.len(),
{
    if ops.len() == 0 {
        b
    } else {
        apply_op(apply_ops(b, ops.drop_last()), ops.last())
    }
}

proof fn lemma_op_keeps_unique(
    b: (Seq<MigratedPollRecord>, Seq<PendingVote>, Seq<MigratedVoteRecord>),
    op: MigrationOp,
)
    requires
        books_unique(b),
    ensures
        books_unique(apply_op(b, op)),
{
    let a = apply_op(b, op);
    match op {
        MigrationOp::MigratePoll { old_hash, new_hash, title } => {
            if !poll_recorded(b.0, old_hash@) {
                assert forall|i: int, j: int| 0 <= i < j < a.0.len() implies (#[trigger] a.0[i]).old_hash@
                    != (#[trigger] a.0[j]).old_hash@ by {
                    assert(a.0[i] == b.0[i]);
                    if j < b.0.len() {
                        assert(a.0[j] == b.0[j]);
                    } else {
                        assert(b.0[i].old_hash@ != old_hash@);
                    }
                }
            }
        },
        MigrationOp::SettleCast { .. } => {},
        MigrationOp::QueueVote { source_poll_hash, option_index, poll_title } => {
            if !vote_pending(b.1, source_poll_hash@, option_index) {
                assert forall|i: int, j: int| 0 <= i < j < a.1.len() implies !same_vote(
                    #[trigger] a.1[i],
                    #[trigger] a.1[j],
                ) by {
                    assert(a.1[i] == b.1[i]);
                    if j < b.1.len() {
                        assert(a.1[j] == b.1[j]);
                    }
                }
            }
        },
        MigrationOp::FinishTick { resolved } => {
            let pred = |v: PendingVote| !is_resolved(resolved@, v);
            lemma_filter_keeps_unique(b.1, pred);
            let kept = b.1.filter(pred);
            assert forall|i: int, j: int| 0 <= i < j < a.1.len() implies !same_vote(
                #[trigger] a.1[i],
                #[trigger] a.1[j],
            ) by {
                assert(!same_vote(kept[i], kept[j]));
            }
        },
        MigrationOp::Abandon => {},
    }
}

/// No duplicates over a whole migration run: if each source poll is
/// recorded once and each vote pending once at the start, the same holds
/// after any run of the state's operations (polls migrated, casts settled,
/// votes queued, retry rounds closed, pending votes abandoned), in any
/// order.
pub proof fn law_migration_run_keeps_books_unique(
    b: (Seq<MigratedPollRecord>, Seq<PendingVote>, Seq<MigratedVoteRecord>),
    ops: Seq<MigrationOp>,
)
    requires
        books_unique(b),
    ensures
        books_unique(apply_ops(b, ops)),
    decreases ops.len(),
{
    if ops.len() > 0 {
        law_migration_run_keeps_books_unique(b, ops.drop_last());
        lemma_op_keeps_unique(apply_ops(b, ops.drop_last()), ops.last());
    }
}

} // verus!
