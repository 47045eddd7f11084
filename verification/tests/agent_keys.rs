use fieldnotes::agent_key::{
    agent_key_string, dedup_keys, ed25519_bytes_from_agent, get_agent_ed25519_bytes,
    parse_agent_pub_key_string, pubkey_raw_b64, AgentPubKey,
};

fn key(seed: u8) -> AgentPubKey {
    let mut raw = [0u8; 39];
    raw[0] = 0x84;
    raw[1] = 0x20;
    raw[2] = 0x24;
    for i in 3..35 {
        raw[i] = seed.wrapping_add(i as u8);
    }
    raw[35] = 1;
    raw[36] = 2;
    raw[37] = 3;
    raw[38] = 4;
    AgentPubKey { raw }
}

#[test]
fn agent_key_text_starts_with_u_and_parses_back() {
    let k = key(7);
    let text = agent_key_string(&k);
    assert!(text.starts_with("uhCAk"));
    assert_eq!(text.len(), 53);
    let back = parse_agent_pub_key_string(&text).unwrap();
    assert_eq!(back.raw, k.raw);
}

#[test]
fn parse_rejects_missing_prefix() {
    let err = parse_agent_pub_key_string("hCAkabc").unwrap_err();
    assert_eq!(err, "Agent key must start with 'u'");
    let err = parse_agent_pub_key_string("").unwrap_err();
    assert_eq!(err, "Agent key must start with 'u'");
}

#[test]
fn parse_rejects_bad_base64() {
    let err = parse_agent_pub_key_string("u!!!!").unwrap_err();
    assert!(err.starts_with("Invalid base64 in agent key: "), "{err}");
}

#[test]
fn parse_rejects_wrong_length() {
    // "uAAAA" decodes to three zero bytes.
    let err = parse_agent_pub_key_string("uAAAA").unwrap_err();
    assert_eq!(err, "Agent key wrong length: 3 (expected 39)");
}

#[test]
fn ed25519_bytes_are_the_middle_32() {
    let k = key(1);
    let ed = ed25519_bytes_from_agent(&k);
    assert_eq!(&ed[..], &k.raw[3..35]);
    let text = agent_key_string(&k);
    assert_eq!(get_agent_ed25519_bytes(&Some(text)).unwrap(), ed);
    assert_eq!(
        get_agent_ed25519_bytes(&None).unwrap_err(),
        "Agent key not available"
    );
}

#[test]
fn pubkey_raw_b64_encodes_all_39_bytes() {
    let k = key(9);
    let text = agent_key_string(&k);
    let b64 = pubkey_raw_b64(&text).unwrap();
    assert_eq!(b64.len(), 52);
    assert!(!b64.ends_with('='));
    assert_eq!(pubkey_raw_b64("nope").unwrap_err(), "Invalid pubkey format");
}

#[test]
fn dedup_keeps_first_occurrences_in_order() {
    let a = key(1);
    let b = key(2);
    let c = key(3);
    let out = dedup_keys(&vec![b, a, b, c, a]);
    let raws: Vec<[u8; 39]> = out.iter().map(|k| k.raw).collect();
    assert_eq!(raws, vec![b.raw, a.raw, c.raw]);
}
