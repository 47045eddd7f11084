use base64::Engine;
use fieldnotes::agent_key::{agent_key_string, AgentPubKey};
use fieldnotes::commands::{
    action_variant_label, administrator_request, app_environment, classify_dump_record,
    create_item_preflight, decode_record_for_export, draft_item, draft_poll_input,
    draft_poll_type, exact_array, friendly_error, generate_passphrase, get_app_status,
    get_my_agent_set, identity_link_path, identity_link_request, import_items_preflight,
    is_own_record, lair_state_consistent, my_agent_set, profile_cache_path, require_linked,
    tally_entry_types, ActionKind, DraftFields, DumpEntryType, DumpedRecord, ExportKind,
    ExportPlan, FlagReason, HumanView, ImportItemShape,
};
use fieldnotes::conductor::ConductorStatus;
use fieldnotes::integrity::ItemKind;

fn key(seed: u8) -> AgentPubKey {
    let mut raw = [seed; 39];
    raw[0] = 0x84;
    raw[1] = 0x20;
    raw[2] = 0x24;
    AgentPubKey { raw }
}

#[test]
fn friendly_error_cell_disabled() {
    assert_eq!(
        friendly_error("ribosome: CellDisabled(xyz)"),
        "Your data cell was temporarily disabled and could not be recovered automatically. Please restart the app."
    );
}

#[test]
fn friendly_error_connection_lost() {
    let expected = "Lost connection to the Holochain conductor. It may have stopped unexpectedly.";
    assert_eq!(friendly_error("WebsocketError: closed"), expected);
    assert_eq!(friendly_error("ConnectionReset by peer"), expected);
    assert_eq!(friendly_error("Io(Kind(BrokenPipe))"), expected);
}

#[test]
fn friendly_error_timeouts() {
    let expected = "The request timed out. The network may be slow or unreachable.";
    assert_eq!(friendly_error("request timeout"), expected);
    assert_eq!(friendly_error("Timeout elapsed"), expected);
}

#[test]
fn friendly_error_unwraps_conductor_internal_error() {
    let raw = "Conductor returned an error: InternalError(\"Source chain error: head moved\")";
    assert_eq!(
        friendly_error(raw),
        "Conductor error: Source chain error: head moved"
    );
}

#[test]
fn friendly_error_conductor_error_without_inner() {
    let raw = "Conductor returned an error: Other";
    assert_eq!(
        friendly_error(raw),
        "Conductor error: Conductor returned an error: Other"
    );
}

#[test]
fn friendly_error_takes_text_between_first_two_markers() {
    let raw = "Conductor returned an error: InternalError(\"a\") then InternalError(\"b\")";
    assert_eq!(friendly_error(raw), "Conductor error: a\") then ");
}

#[test]
fn friendly_error_fallback() {
    assert_eq!(friendly_error("boom"), "Something went wrong: boom");
}

#[test]
fn data_file_paths_end_with_their_names() {
    let p = identity_link_path("/data/app");
    assert!(p.ends_with("identity-link.json"));
    assert!(p.starts_with("/data/app"));
    let q = profile_cache_path("/data/app");
    assert!(q.ends_with("profile-cache.json"));
    assert_ne!(p, q);
}

#[test]
fn app_status_ready_only_when_conductor_ready() {
    let s = get_app_status(
        ConductorStatus::Ready {
            admin_port: 4466,
            app_port: 9000,
        },
        Some("uhCAk".to_string()),
    );
    assert!(s.ready);
    assert_eq!(s.agent_pub_key.as_deref(), Some("uhCAk"));
    let s = get_app_status(ConductorStatus::AwaitingNetwork { admin_port: 4466 }, None);
    assert!(!s.ready);
    let s = get_app_status(ConductorStatus::Stopped, None);
    assert!(!s.ready);
}

#[test]
fn environment_stamp_forms() {
    assert_eq!(
        app_environment(true, "Mac OS", "26.1", Some("arm64")),
        "macOS 26.1 (arm64)"
    );
    assert_eq!(app_environment(false, "Ubuntu", "24.04", None), "Ubuntu 24.04");
    assert_eq!(
        app_environment(false, "Windows", "Unknown", Some("x86_64")),
        "Windows (x86_64)"
    );
    assert_eq!(app_environment(false, "Unknown", "", None), "Unknown");
}

#[test]
fn passphrase_is_32_alphanumerics_and_fresh() {
    let a = generate_passphrase();
    let b = generate_passphrase();
    assert_eq!(a.len(), 32);
    assert!(a.chars().all(|c| c.is_ascii_alphanumeric()));
    assert_ne!(a, b);
}

#[test]
fn lair_state_all_or_nothing() {
    assert!(lair_state_consistent(true, true, true));
    assert!(lair_state_consistent(false, false, false));
    assert!(!lair_state_consistent(true, false, true));
    assert!(!lair_state_consistent(false, false, true));
}

#[test]
fn require_linked_message() {
    assert!(require_linked(true, "respond").is_ok());
    assert_eq!(
        require_linked(false, "respond").unwrap_err(),
        "Sign in with Flowsta to respond"
    );
}

#[test]
fn create_item_checks_in_order() {
    assert_eq!(
        create_item_preflight(false, false, ItemKind::Scenario, false).unwrap_err(),
        "Sign in with Flowsta to create scenarios"
    );
    assert_eq!(
        create_item_preflight(true, false, ItemKind::Scenario, false).unwrap_err(),
        "Conductor not ready"
    );
    assert_eq!(
        create_item_preflight(true, true, ItemKind::Scenario, false).unwrap_err(),
        "Scenario items require an admin_grant_action_hash"
    );
    assert!(create_item_preflight(true, true, ItemKind::Scenario, true).is_ok());
    assert!(create_item_preflight(true, true, ItemKind::Feedback, false).is_ok());
}

#[test]
fn import_requires_grant_on_every_scenario() {
    let ok = vec![
        ImportItemShape { kind: Some("Scenario".into()), has_grant: true },
        ImportItemShape { kind: Some("Feedback".into()), has_grant: false },
        ImportItemShape { kind: None, has_grant: false },
    ];
    assert!(import_items_preflight(true, true, &ok).is_ok());
    let bad = vec![
        ImportItemShape { kind: Some("Feedback".into()), has_grant: false },
        ImportItemShape { kind: Some("Scenario".into()), has_grant: false },
    ];
    assert_eq!(
        import_items_preflight(true, true, &bad).unwrap_err(),
        "All Scenario items require admin_grant_action_hash"
    );
    assert_eq!(
        import_items_preflight(false, true, &ok).unwrap_err(),
        "Sign in with Flowsta to import scenarios"
    );
}

#[test]
fn administrator_request_errors() {
    let sig = vec![5u8; 64];
    assert_eq!(
        administrator_request("   ", true, &sig).unwrap_err(),
        "admin_pubkey_str must not be empty"
    );
    assert_eq!(
        administrator_request("xyz", true, &sig).unwrap_err(),
        "Invalid admin pubkey format"
    );
    let text = agent_key_string(&key(4));
    assert_eq!(
        administrator_request(&text, false, &sig).unwrap_err(),
        "Conductor not ready"
    );
    assert_eq!(
        administrator_request(&text, true, &vec![1u8; 10]).unwrap_err(),
        "signature must be 64 bytes, got 10"
    );
    let (admin, signature) = administrator_request(&text, true, &sig).unwrap();
    assert_eq!(admin.raw, key(4).raw);
    assert_eq!(signature.bytes, [5u8; 64]);
}

#[test]
fn identity_link_request_decodes_signature() {
    let text = agent_key_string(&key(6));
    assert_eq!(
        identity_link_request(false, &text, "AAAA").unwrap_err(),
        "Conductor not ready"
    );
    assert_eq!(
        identity_link_request(true, "bad", "AAAA").unwrap_err(),
        "Agent key must start with 'u'"
    );
    let err = identity_link_request(true, &text, "%%%").unwrap_err();
    assert!(err.starts_with("Invalid signature: "), "{err}");
    let (k, sig) = identity_link_request(true, &text, "AQID").unwrap();
    assert_eq!(k.raw, key(6).raw);
    assert_eq!(sig, vec![1, 2, 3]);
}

#[test]
fn agent_set_is_local_then_new_siblings() {
    let local = key(1);
    let a = key(2);
    let b = key(3);
    let set = my_agent_set(&local, &vec![vec![a, local], vec![b, a]]);
    let raws: Vec<[u8; 39]> = set.iter().map(|k| k.raw).collect();
    assert_eq!(raws, vec![local.raw, a.raw, b.raw]);
}

#[test]
fn agent_set_texts_are_sorted_and_unique() {
    let local = key(9);
    let a = key(2);
    let out = get_my_agent_set(Some("ignored".into()), Some(local), &vec![vec![a, local]]);
    assert_eq!(out.len(), 2);
    let mut sorted = out.clone();
    sorted.sort();
    assert_eq!(out, sorted);
    assert!(out.contains(&agent_key_string(&local)));
    assert!(out.contains(&agent_key_string(&a)));
}

#[test]
fn agent_set_without_valid_local_key_echoes_input() {
    assert_eq!(
        get_my_agent_set(Some("uBAD".into()), None, &vec![]),
        vec!["uBAD".to_string()]
    );
    assert!(get_my_agent_set(None, None, &vec![]).is_empty());
}

#[test]
fn flag_reason_texts() {
    assert_eq!(FlagReason::Spam.to_display_string(), "Spam");
    assert_eq!(FlagReason::Misleading.to_display_string(), "Misleading");
    assert_eq!(FlagReason::OffTopic.to_display_string(), "OffTopic");
    assert_eq!(FlagReason::Inappropriate.to_display_string(), "Inappropriate");
}

#[test]
fn export_plans() {
    match decode_record_for_export("Item", "AQID").unwrap() {
        ExportPlan::Decode { kind, bytes } => {
            assert_eq!(kind, ExportKind::Item);
            assert_eq!(bytes, vec![1, 2, 3]);
        }
        _ => panic!("expected a decode plan"),
    }
    match decode_record_for_export("Vote", "AQID").unwrap() {
        ExportPlan::Unknown { warning, raw_bytes_hex } => {
            assert_eq!(warning, "Unknown entry type: Vote");
            assert_eq!(raw_bytes_hex, "010203");
        }
        _ => panic!("expected an unknown plan"),
    }
    let err = decode_record_for_export("Item", "%%").err().unwrap();
    assert!(err.starts_with("base64 decode: "), "{err}");
}

#[test]
fn dump_records_are_classified_by_table() {
    let (name, view) = classify_dump_record(
        Some(DumpEntryType::App { zome_index: 1, entry_index: 1 }),
        ActionKind::Create,
    );
    assert_eq!(name, "Item");
    assert_eq!(view, HumanView::Decode(ExportKind::Item));
    let (name, view) = classify_dump_record(
        Some(DumpEntryType::App { zome_index: 1, entry_index: 0 }),
        ActionKind::Create,
    );
    assert_eq!(name, "AdminGrant");
    assert_eq!(view, HumanView::NoView);
    let (name, _) = classify_dump_record(
        Some(DumpEntryType::App { zome_index: 0, entry_index: 0 }),
        ActionKind::Create,
    );
    assert_eq!(name, "IsSamePerson");
    let (name, view) = classify_dump_record(
        Some(DumpEntryType::App { zome_index: 2, entry_index: 7 }),
        ActionKind::Create,
    );
    assert_eq!(name, "AppEntry(zome=2,entry=7)");
    assert_eq!(view, HumanView::NoView);
    let (name, _) = classify_dump_record(Some(DumpEntryType::CapGrant), ActionKind::Create);
    assert_eq!(name, "CapGrant");
    let (name, _) = classify_dump_record(None, ActionKind::InitZomesComplete);
    assert_eq!(name, "InitZomesComplete");
    assert_eq!(action_variant_label(ActionKind::AgentValidationPkg), "AgentValidationPkg");
}

#[test]
fn backup_summary_counts_readable_records() {
    let recs = vec![
        DumpedRecord { entry_type: "Item".into(), readable: true },
        DumpedRecord { entry_type: "Dna".into(), readable: false },
        DumpedRecord { entry_type: "Response".into(), readable: true },
        DumpedRecord { entry_type: "Item".into(), readable: true },
        DumpedRecord { entry_type: "Item".into(), readable: false },
    ];
    let (counts, total) = tally_entry_types(&recs);
    let pairs: Vec<(String, usize)> = counts
        .iter()
        .map(|c| (c.entry_type.clone(), c.count))
        .collect();
    assert_eq!(
        pairs,
        vec![("Item".to_string(), 2), ("Response".to_string(), 1)]
    );
    assert_eq!(total, 3);
}

#[test]
fn drafts_take_defaults() {
    let d = draft_item(
        "uhC".into(),
        DraftFields {
            title: None,
            description: Some("d".into()),
            options: Some(vec![Some("a".into()), None, Some("b".into())]),
            closes_at: Some(5),
            poll_type: None,
        },
        42,
    );
    assert_eq!(d.title, "");
    assert_eq!(d.description, "d");
    assert_eq!(d.options, vec!["a".to_string(), "b".to_string()]);
    assert_eq!(d.closes_at, Some(5));
    assert_eq!(d.poll_type, "Anonymous");
    assert_eq!(d.created_at, 42);

    let input = draft_poll_input(DraftFields {
        title: Some("t".into()),
        description: None,
        options: None,
        closes_at: None,
        poll_type: Some("Public".into()),
    });
    assert_eq!(input.title, "t");
    assert!(input.options.is_empty());
    assert_eq!(input.poll_type.as_deref(), Some("Public"));
    assert_eq!(draft_poll_type(None), "Anonymous");
}

#[test]
fn exact_arrays_and_own_records() {
    assert_eq!(exact_array::<3>(&vec![1, 2, 3]), Some([1, 2, 3]));
    assert_eq!(exact_array::<24>(&vec![0u8; 23]), None);
    assert!(is_own_record(&Some("me".into()), "me"));
    assert!(!is_own_record(&Some("me".into()), "you"));
    assert!(!is_own_record(&None, "me"));
}

#[test]
fn exported_bytes_come_back_exactly() {
    let bytes: Vec<u8> = (0..=255u8).rev().collect();
    let b64 = base64::engine::general_purpose::STANDARD.encode(&bytes);
    match decode_record_for_export("Finding", &b64).unwrap() {
        ExportPlan::Decode { kind, bytes: back } => {
            assert_eq!(kind, ExportKind::Finding);
            assert_eq!(back, bytes);
        }
        _ => panic!("expected a decode plan"),
    }
}

#[test]
fn agent_key_raw_base64_decodes_to_the_key() {
    let k = key(7);
    let text = fieldnotes::agent_key::pubkey_raw_b64(&agent_key_string(&k)).unwrap();
    let back = base64::engine::general_purpose::STANDARD.decode(text).unwrap();
    assert_eq!(back, k.raw.to_vec());
}
