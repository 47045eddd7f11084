use fieldnotes::agent_key::AgentPubKey;
use fieldnotes::coordinator::{
    archive_update_target, do_create_item, get_admin_x25519_keys, get_administrators, get_latest_record,
    is_administrator, newest_first, own_response_links, select_items, set_item_archived,
    store_encrypted_attachment, CreateItemInput, StoreAttachmentInput,
};
use fieldnotes::integrity::{ActionHash, ItemKind};

fn key(seed: u8) -> AgentPubKey {
    AgentPubKey { raw: [seed; 39] }
}

fn input() -> CreateItemInput {
    CreateItemInput {
        kind: ItemKind::Feedback,
        admin_grant_action_hash: None,
        campaign: "c".into(),
        section: "s".into(),
        title: "t".into(),
        instructions: "i".into(),
        look_for: "l".into(),
        order: 4,
    }
}

#[test]
fn new_items_are_live() {
    let item = do_create_item(input(), 77);
    assert!(!item.is_archived);
    assert_eq!(item.created_at, 77);
    assert_eq!(item.order, 4);
}

#[test]
fn latest_update_is_newest_first_listed() {
    assert_eq!(get_latest_record(&vec![]), None);
    assert_eq!(get_latest_record(&vec![5]), Some(0));
    assert_eq!(get_latest_record(&vec![5, 9, 3, 9]), Some(1));
}

#[test]
fn live_and_archived_lists_split_items() {
    let flags = vec![Some(false), Some(true), None, Some(false)];
    assert_eq!(select_items(&flags, false), vec![0, 3]);
    assert_eq!(select_items(&flags, true), vec![1]);
}

#[test]
fn archiving_rules() {
    assert_eq!(
        set_item_archived(false, Some(do_create_item(input(), 1)), true).err().unwrap(),
        "Only administrators can archive items"
    );
    assert_eq!(set_item_archived(true, None, true).err().unwrap(), "Item not found");
    let archived = set_item_archived(true, Some(do_create_item(input(), 1)), true).ok().unwrap();
    assert!(archived.is_archived);
    assert_eq!(archived.title, "t");
    let back = set_item_archived(true, Some(archived), false).ok().unwrap();
    assert!(!back.is_archived);
}

#[test]
fn own_verdicts_are_replaced() {
    let authors = vec![key(1), key(2), key(1)];
    assert_eq!(own_response_links(&authors, &key(1)), vec![0, 2]);
    assert!(own_response_links(&authors, &key(3)).is_empty());
}

#[test]
fn administrators_listed_once() {
    let admins = get_administrators(&vec![key(2), key(1), key(2)]);
    let raws: Vec<[u8; 39]> = admins.iter().map(|k| k.raw).collect();
    assert_eq!(raws, vec![key(2).raw, key(1).raw]);
    assert!(is_administrator(1));
    assert!(!is_administrator(0));
    assert_eq!(
        get_admin_x25519_keys(&vec![[1u8; 32], [2u8; 32], [1u8; 32]]),
        vec![[1u8; 32], [2u8; 32]]
    );
}

#[test]
fn keys_tried_newest_first_stably() {
    assert_eq!(newest_first(&vec![10, 30, 20, 30]), vec![1, 3, 2, 0]);
    assert!(newest_first(&vec![]).is_empty());
}

#[test]
fn attachments_need_their_finding() {
    let input = || StoreAttachmentInput {
        finding_action_hash: ActionHash { raw: [1; 39] },
        image_ciphertext: vec![1, 2],
        bulk_nonce: vec![0; 12],
        per_recipient: vec![],
        sender_ed25519: vec![3; 32],
        media_hint: "image/png".into(),
    };
    assert_eq!(
        store_encrypted_attachment(input(), false, 5).err().unwrap(),
        "Finding not found"
    );
    let (h, a) = store_encrypted_attachment(input(), true, 5).ok().unwrap();
    assert_eq!(h.raw, [1; 39]);
    assert_eq!(a.created_at, 5);
    assert_eq!(a.media_hint, "image/png");
}

#[test]
fn archive_updates_chain_from_the_newest_update() {
    let original = ActionHash { raw: [1; 39] };
    let first = ActionHash { raw: [2; 39] };
    let second = ActionHash { raw: [3; 39] };
    assert_eq!(archive_update_target(&original, &vec![], &vec![]).raw, original.raw);
    assert_eq!(archive_update_target(&original, &vec![first], &vec![10]).raw, first.raw);
    assert_eq!(archive_update_target(&original, &vec![first, second], &vec![10, 20]).raw, second.raw);
    assert_eq!(archive_update_target(&original, &vec![first, second], &vec![20, 20]).raw, first.raw);
}
