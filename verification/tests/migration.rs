use fieldnotes::migration::{
    authored_by, classify_cast, retry_resolution, state_file_name, CastOutcome, MigrationState,
    MigrationStatus, PendingVote, ResolvedVote,
};

fn pending(hash: &str, option: u32, retries: u32) -> PendingVote {
    PendingVote {
        source_poll_hash: hash.into(),
        option_index: option,
        poll_title: format!("poll {hash}"),
        retry_count: retries,
    }
}

#[test]
fn state_file_is_named_after_active_version() {
    assert_eq!(state_file_name(), "migration-fieldnotes_v1_3-state.json");
}

#[test]
fn default_state_is_empty_and_not_started() {
    let s = MigrationState::default();
    assert!(matches!(s.status, MigrationStatus::NotStarted));
    assert!(s.polls_migrated.is_empty());
    assert!(s.votes_pending.is_empty());
    assert!(s.votes_migrated.is_empty());
    assert!(!s.is_complete());
}

#[test]
fn authored_by_picks_own_entries() {
    let authors = vec!["me".to_string(), "you".into(), "me".into(), "them".into()];
    assert_eq!(authored_by(&authors, "me"), vec![0, 2]);
    assert!(authored_by(&authors, "nobody").is_empty());
}

#[test]
fn polls_are_recorded_once_known() {
    let mut s = MigrationState::default();
    assert!(!s.has_poll("old1"));
    assert!(s.migrate_poll("old1".into(), "new1".into(), "t".into()));
    assert!(s.has_poll("old1"));
    assert_eq!(s.polls_migrated[0].new_hash, "new1");
    // A second report of the same source poll changes nothing.
    assert!(!s.migrate_poll("old1".into(), "other".into(), "t".into()));
    assert_eq!(s.polls_migrated.len(), 1);
    s.record_poll("old2".into(), "new2".into(), "u".into());
    assert!(s.has_poll("old2"));
    assert_eq!(s.polls_migrated.len(), 2);
}

#[test]
fn already_voted_counts_as_migrated() {
    assert_eq!(classify_cast(&Ok(())), CastOutcome::Cast);
    assert_eq!(
        classify_cast(&Err("You have already voted on this poll".into())),
        CastOutcome::AlreadyVoted
    );
    assert_eq!(classify_cast(&Err("Poll is closed".into())), CastOutcome::Failed);

    let mut s = MigrationState::default();
    let r = s.settle_cast("old".into(), "new".into(), 1, &Err("already voted".into()));
    assert_eq!(r, CastOutcome::AlreadyVoted);
    assert!(s.has_vote("old", 1));
    assert!(!s.has_vote("old", 2));
    let r = s.settle_cast("old2".into(), "new2".into(), 0, &Err("network down".into()));
    assert_eq!(r, CastOutcome::Failed);
    assert!(!s.has_vote("old2", 0));
    assert_eq!(s.votes_migrated.len(), 1);
}

#[test]
fn pending_votes_are_queued_once() {
    let mut s = MigrationState::default();
    assert!(s.add_pending_vote("p".into(), 1, "t".into()));
    assert!(!s.add_pending_vote("p".into(), 1, "t again".into()));
    assert!(s.add_pending_vote("p".into(), 2, "t".into()));
    assert_eq!(s.votes_pending.len(), 2);
    assert_eq!(s.votes_pending[0].retry_count, 0);
    assert!(s.has_pending("p", 2));
    assert!(s.has_pending_votes());
}

#[test]
fn retry_results_move_votes_from_pending_to_migrated() {
    let mut s = MigrationState::default();
    s.votes_pending = vec![pending("a", 0, 2), pending("b", 1, 0), pending("a", 1, 5)];
    let resolved = vec![ResolvedVote {
        source_poll_hash: "a".into(),
        option_index: 1,
        new_poll_hash: "a2".into(),
    }];
    s.apply_retry_results(&resolved);
    let left: Vec<(String, u32)> = s
        .votes_pending
        .iter()
        .map(|v| (v.source_poll_hash.clone(), v.option_index))
        .collect();
    assert_eq!(left, vec![("a".to_string(), 0), ("b".to_string(), 1)]);
    assert_eq!(s.votes_migrated.len(), 1);
    assert_eq!(s.votes_migrated[0].old_poll_hash, "a");
    assert_eq!(s.votes_migrated[0].new_poll_hash, "a2");
    assert_eq!(s.votes_migrated[0].option_index, 1);
}

#[test]
fn retry_counts_go_up_by_one() {
    let mut s = MigrationState::default();
    s.votes_pending = vec![pending("a", 0, 2), pending("b", 1, 0)];
    s.increment_retry_counts();
    assert_eq!(s.votes_pending[0].retry_count, 3);
    assert_eq!(s.votes_pending[1].retry_count, 1);
    assert_eq!(s.votes_pending[1].source_poll_hash, "b");
}

#[test]
fn retry_resolution_only_on_success_or_already_voted() {
    let v = pending("x", 3, 0);
    let r = retry_resolution(&v, "x2".into(), &Ok(())).unwrap();
    assert_eq!(r.source_poll_hash, "x");
    assert_eq!(r.option_index, 3);
    assert_eq!(r.new_poll_hash, "x2");
    assert!(retry_resolution(&v, "x2".into(), &Err("already voted".into())).is_some());
    assert!(retry_resolution(&v, "x2".into(), &Err("timeout".into())).is_none());
}

#[test]
fn abandoning_clears_only_pending() {
    let mut s = MigrationState::default();
    s.votes_pending = vec![pending("a", 0, 0)];
    s.record_vote("o".into(), "n".into(), 1);
    s.status = MigrationStatus::Complete;
    s.abandon_pending_votes();
    assert!(s.votes_pending.is_empty());
    assert_eq!(s.votes_migrated.len(), 1);
    assert!(s.is_complete());
}

#[test]
fn retry_tick_resolves_then_counts_the_rest() {
    let mut s = MigrationState::default();
    s.votes_pending = vec![pending("a", 0, 2), pending("b", 1, 0), pending("a", 1, 5)];
    let resolved = vec![ResolvedVote {
        source_poll_hash: "b".into(),
        option_index: 1,
        new_poll_hash: "b2".into(),
    }];
    s.finish_retry_tick(&resolved);
    let left: Vec<(String, u32, u32)> = s
        .votes_pending
        .iter()
        .map(|v| (v.source_poll_hash.clone(), v.option_index, v.retry_count))
        .collect();
    assert_eq!(left, vec![("a".to_string(), 0, 3), ("a".to_string(), 1, 6)]);
    assert_eq!(s.votes_migrated.len(), 1);
    assert_eq!(s.votes_migrated[0].new_poll_hash, "b2");
}

#[test]
fn empty_retry_tick_only_counts() {
    let mut s = MigrationState::default();
    s.votes_pending = vec![pending("a", 0, 0)];
    s.finish_retry_tick(&Vec::new());
    assert_eq!(s.votes_pending[0].retry_count, 1);
    assert!(s.votes_migrated.is_empty());
}
