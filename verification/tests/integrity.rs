use fieldnotes::agent_key::{agent_key_string, AgentPubKey};
use fieldnotes::integrity::{
    admin_grant_signature_verdict, all_items_anchor, item_grant_verdict, parse_progenitor_pubkey,
    properties_or_default, validate, validate_admin_grant, validate_attachment_link,
    validate_finding, validate_item, validate_items_anchor_link, ActionHash, AdminGrant,
    AnyLinkableHash, DnaProperties, EntryHash, EntryTypes, Finding, GrantCheck, GrantFetch,
    HostQuery, Item, ItemKind, LinkTypes, Op, OpEntry, Signature, ValidateCallbackResult,
    Validation,
};

fn key(seed: u8) -> AgentPubKey {
    let mut raw = [seed; 39];
    raw[0] = 0x84;
    raw[1] = 0x20;
    raw[2] = 0x24;
    AgentPubKey { raw }
}

fn item(kind: ItemKind, title: &str, grant: Option<ActionHash>) -> Item {
    Item {
        kind,
        admin_grant_action_hash: grant,
        campaign: "c".into(),
        section: "s".into(),
        title: title.into(),
        instructions: "i".into(),
        look_for: "l".into(),
        order: 1,
        created_at: 10,
        is_archived: false,
    }
}

fn invalid_message(v: &ValidateCallbackResult) -> Option<String> {
    match v {
        ValidateCallbackResult::Valid => None,
        ValidateCallbackResult::Invalid(m) => Some(m.clone()),
    }
}

fn done_message(v: Validation) -> Option<String> {
    match v {
        Validation::Done(Ok(r)) => invalid_message(&r),
        _ => panic!("expected a decision"),
    }
}

#[test]
fn blank_item_title_is_rejected() {
    let v = validate_item(&item(ItemKind::Feedback, "  \t", None), &key(1));
    assert_eq!(done_message(v).as_deref(), Some("Item title cannot be empty"));
}

#[test]
fn feedback_item_is_valid() {
    let v = validate_item(&item(ItemKind::Feedback, "Crash on save", None), &key(1));
    assert_eq!(done_message(v), None);
}

#[test]
fn scenario_without_grant_is_rejected() {
    let v = validate_item(&item(ItemKind::Scenario, "Login", None), &key(1));
    assert_eq!(
        done_message(v).as_deref(),
        Some("Scenario item must reference an AdminGrant action hash")
    );
}

#[test]
fn scenario_with_grant_asks_for_the_grant() {
    let h = ActionHash { raw: [3; 39] };
    match validate_item(&item(ItemKind::Scenario, "Login", Some(h)), &key(1)) {
        Validation::Needs(HostQuery::GrantRecord { grant, author }) => {
            assert_eq!(grant.raw, h.raw);
            assert_eq!(author.raw, key(1).raw);
        }
        _ => panic!("expected a grant lookup"),
    }
}

#[test]
fn scenario_author_must_be_the_granted_admin() {
    let grant = AdminGrant {
        admin_pubkey: key(2),
        progenitor_signature: Signature { bytes: [0; 64] },
        created_at: 5,
    };
    let r = item_grant_verdict(&key(1), GrantFetch::Found(grant)).unwrap();
    assert_eq!(
        invalid_message(&r).as_deref(),
        Some("Scenario author does not match the admin in the referenced AdminGrant")
    );
    let grant = AdminGrant {
        admin_pubkey: key(1),
        progenitor_signature: Signature { bytes: [0; 64] },
        created_at: 5,
    };
    let r = item_grant_verdict(&key(1), GrantFetch::Found(grant)).unwrap();
    assert_eq!(invalid_message(&r), None);
}

#[test]
fn missing_grant_record_outcomes() {
    let r = item_grant_verdict(&key(1), GrantFetch::Unavailable).unwrap();
    assert_eq!(
        invalid_message(&r).as_deref(),
        Some("Could not fetch AdminGrant for Item validation")
    );
    assert_eq!(
        item_grant_verdict(&key(1), GrantFetch::NoEntry).err().unwrap(),
        "Referenced AdminGrant record has no entry"
    );
    assert_eq!(
        item_grant_verdict(&key(1), GrantFetch::Undecodable("bad msgpack".into()))
            .err()
            .unwrap(),
        "bad msgpack"
    );
}

#[test]
fn blank_finding_is_rejected() {
    let f = Finding { item_action_hash: ActionHash { raw: [1; 39] }, text: "\n".into(), created_at: 1 };
    assert_eq!(invalid_message(&validate_finding(&f)).as_deref(), Some("Finding text cannot be empty"));
    let f = Finding { item_action_hash: ActionHash { raw: [1; 39] }, text: "ok".into(), created_at: 1 };
    assert_eq!(invalid_message(&validate_finding(&f)), None);
}

#[test]
fn grant_without_timestamp_is_rejected() {
    let grant = AdminGrant {
        admin_pubkey: key(1),
        progenitor_signature: Signature { bytes: [0; 64] },
        created_at: 0,
    };
    let op = Op::StoreEntry(OpEntry::CreateEntry { app_entry: EntryTypes::AdminGrant(grant), author: key(1) });
    assert_eq!(
        done_message(validate(op)).as_deref(),
        Some("AdminGrant created_at must be non-zero")
    );
}

#[test]
fn grant_without_progenitor_is_accepted() {
    let grant = AdminGrant {
        admin_pubkey: key(1),
        progenitor_signature: Signature { bytes: [0; 64] },
        created_at: 9,
    };
    match validate_admin_grant(&grant, &properties_or_default(None)) {
        GrantCheck::Decided(v) => assert_eq!(invalid_message(&v), None),
        _ => panic!("expected a decision"),
    }
}

#[test]
fn grant_with_progenitor_needs_signature_over_raw_key() {
    let progenitor = key(7);
    let props = DnaProperties { progenitor_pubkey: Some(agent_key_string(&progenitor)) };
    let grant = AdminGrant {
        admin_pubkey: key(1),
        progenitor_signature: Signature { bytes: [4; 64] },
        created_at: 9,
    };
    match validate_admin_grant(&grant, &props) {
        GrantCheck::VerifySignature { progenitor: p, signature, payload } => {
            assert_eq!(p.raw, progenitor.raw);
            assert_eq!(signature.bytes, [4; 64]);
            assert_eq!(payload, key(1).raw.to_vec());
        }
        _ => panic!("expected a signature check"),
    }
    assert_eq!(invalid_message(&admin_grant_signature_verdict(true)), None);
    assert_eq!(
        invalid_message(&admin_grant_signature_verdict(false)).as_deref(),
        Some("AdminGrant progenitor_signature does not verify against progenitor pubkey")
    );
}

#[test]
fn unparsable_progenitor_rejects_grants() {
    let props = DnaProperties { progenitor_pubkey: Some("not-a-key".into()) };
    let grant = AdminGrant {
        admin_pubkey: key(1),
        progenitor_signature: Signature { bytes: [0; 64] },
        created_at: 9,
    };
    match validate_admin_grant(&grant, &props) {
        GrantCheck::Decided(v) => assert_eq!(
            invalid_message(&v).as_deref(),
            Some("Could not parse progenitor pubkey from DNA properties")
        ),
        _ => panic!("expected a decision"),
    }
    assert_eq!(
        parse_progenitor_pubkey("x").err().unwrap(),
        "progenitor pubkey must start with 'u'"
    );
}

#[test]
fn items_anchor_link_must_start_at_anchor() {
    let anchor = EntryHash { raw: [8; 39] };
    let ok = validate_items_anchor_link(&AnyLinkableHash::Entry(EntryHash { raw: [8; 39] }), &anchor);
    assert_eq!(invalid_message(&ok), None);
    let bad = validate_items_anchor_link(&AnyLinkableHash::Action(ActionHash { raw: [8; 39] }), &anchor);
    assert_eq!(
        invalid_message(&bad).as_deref(),
        Some("AllItems link must originate from the items anchor")
    );
}

#[test]
fn attachment_link_only_by_finding_author() {
    assert_eq!(invalid_message(&validate_attachment_link(&key(1), &key(1))), None);
    assert_eq!(
        invalid_message(&validate_attachment_link(&key(1), &key(2))).as_deref(),
        Some("An attachment may only be linked to a finding by that finding's author")
    );
}

#[test]
fn link_validation_routes() {
    match validate(Op::RegisterCreateLink {
        link_type: LinkTypes::FindingToAttachment,
        base_address: AnyLinkableHash::External([0; 39]),
        author: key(1),
    }) {
        Validation::Done(Err(e)) => {
            assert_eq!(e, "FindingToAttachment base must be a Finding action hash")
        }
        _ => panic!("expected an error"),
    }
    match validate(Op::RegisterCreateLink {
        link_type: LinkTypes::AllItems,
        base_address: AnyLinkableHash::External([0; 39]),
        author: key(1),
    }) {
        Validation::Needs(HostQuery::ItemsAnchor { .. }) => {}
        _ => panic!("expected an anchor lookup"),
    }
    assert_eq!(
        done_message(validate(Op::RegisterCreateLink {
            link_type: LinkTypes::AllAdmins,
            base_address: AnyLinkableHash::External([0; 39]),
            author: key(1),
        })),
        None
    );
    assert_eq!(done_message(validate(Op::RegisterDeleteLink)), None);
}

#[test]
fn items_anchor_entry_shape() {
    let a = all_items_anchor();
    assert_eq!(a.title, "ALL_ITEMS_ANCHOR");
    assert_eq!(a.kind, ItemKind::Scenario);
    assert!(a.admin_grant_action_hash.is_none());
    assert!(!a.is_archived);
    assert_eq!(a.order, 0);
}
