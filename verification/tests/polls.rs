use fieldnotes::agent_key::AgentPubKey;
use fieldnotes::commands::Poll;
use fieldnotes::integrity::ActionHash;
use fieldnotes::polls::{
    cast_vote, create_poll, delete_poll_check, flag_poll, get_flag_threshold,
    get_migration_mapping, links_to, register_migrated_poll, remove_flag_check, CreatePollInput,
    FlagReason, MigratedPoll,
};

fn key(seed: u8) -> AgentPubKey {
    AgentPubKey { raw: [seed; 39] }
}

fn hash(seed: u8) -> ActionHash {
    ActionHash { raw: [seed; 39] }
}

fn poll(closes_at: Option<i64>) -> Poll {
    Poll {
        title: "Lunch".into(),
        description: "Where?".into(),
        options: vec!["A".into(), "B".into()],
        created_at: 1,
        closes_at,
        poll_type: None,
    }
}

#[test]
fn polls_must_close_in_the_future() {
    let input = || CreatePollInput {
        title: "t".into(),
        description: "d".into(),
        options: vec!["x".into()],
        closes_at: Some(100),
    };
    assert_eq!(
        create_poll(input(), 100).err().unwrap(),
        "Poll closing time must be in the future"
    );
    let p = create_poll(input(), 99).ok().unwrap();
    assert_eq!(p.created_at, 99);
    assert_eq!(p.closes_at, Some(100));
    assert!(p.poll_type.is_none());
    let open_ended = CreatePollInput { closes_at: None, ..input() };
    assert!(create_poll(open_ended, 1_000_000).is_ok());
}

#[test]
fn vote_checks_in_order() {
    let p = poll(Some(50));
    assert_eq!(
        cast_vote(&p, hash(1), 2, 10, &vec![], &key(1)).err().unwrap(),
        "Invalid option index"
    );
    assert_eq!(
        cast_vote(&p, hash(1), 1, 51, &vec![], &key(1)).err().unwrap(),
        "Poll is closed"
    );
    assert_eq!(
        cast_vote(&p, hash(1), 1, 50, &vec![key(2), key(1)], &key(1)).err().unwrap(),
        "You have already voted on this poll"
    );
    let v = cast_vote(&p, hash(1), 1, 50, &vec![key(2)], &key(1)).ok().unwrap();
    assert_eq!(v.option_index, 1);
    assert_eq!(v.poll_action_hash.raw, hash(1).raw);
}

#[test]
fn one_flag_per_agent() {
    assert_eq!(
        flag_poll(hash(1), FlagReason::Spam, 5, &vec![key(1)], &key(1)).err().unwrap(),
        "You have already flagged this poll"
    );
    let f = flag_poll(hash(1), FlagReason::OffTopic, 5, &vec![key(2)], &key(1)).ok().unwrap();
    assert_eq!(f.reason, FlagReason::OffTopic);
    assert_eq!(f.created_at, 5);
    assert_eq!(get_flag_threshold(), 3);
}

#[test]
fn only_authors_delete() {
    assert!(delete_poll_check(&key(1), &key(1)).is_ok());
    assert_eq!(
        delete_poll_check(&key(1), &key(2)).unwrap_err(),
        "Only the poll creator can delete it"
    );
    assert_eq!(
        remove_flag_check(&key(1), &key(2)).unwrap_err(),
        "Only the flag author can remove it"
    );
    assert_eq!(links_to(&vec![hash(1), hash(2), hash(1)], &hash(1)), vec![0, 2]);
}

#[test]
fn migration_mappings() {
    assert_eq!(
        register_migrated_poll(hash(1), hash(1), 3).err().unwrap(),
        "Old and new action hashes must be different"
    );
    let m = register_migrated_poll(hash(1), hash(2), 3).ok().unwrap();
    assert_eq!(m.migrated_at, 3);
    let maps = vec![
        MigratedPoll { old_action_hash: hash(5), new_action_hash: hash(6), migrated_at: 1 },
        MigratedPoll { old_action_hash: hash(1), new_action_hash: hash(2), migrated_at: 2 },
        MigratedPoll { old_action_hash: hash(1), new_action_hash: hash(3), migrated_at: 3 },
    ];
    assert_eq!(get_migration_mapping(&maps, &hash(1)).unwrap().raw, hash(2).raw);
    assert!(get_migration_mapping(&maps, &hash(9)).is_none());
}
