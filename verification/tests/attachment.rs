use fieldnotes::agent_key::AgentPubKey;
use fieldnotes::attachment::{cohort_recipients, find_recipient, open_attachment, prepare_attachment, unwrap_request};
use base64::Engine;
use fieldnotes::integrity::RecipientWrappedKey;

fn key(seed: u8) -> AgentPubKey {
    let mut raw = [0u8; 39];
    for i in 3..35 {
        raw[i] = seed;
    }
    AgentPubKey { raw }
}

fn wrapped(ed: [u8; 32], nonce_len: usize) -> RecipientWrappedKey {
    RecipientWrappedKey { recipient_ed25519: ed.to_vec(), nonce: vec![1; nonce_len], wrapped_key: vec![9; 48] }
}

#[test]
fn cohort_is_uploader_then_admins_once_each() {
    let me = [5u8; 32];
    let out = cohort_recipients(&me, &vec![key(1), key(5), key(1), key(2)]);
    assert_eq!(out, vec![[5u8; 32], [1u8; 32], [2u8; 32]]);
    assert_eq!(cohort_recipients(&me, &vec![]), vec![[5u8; 32]]);
}

#[test]
fn upload_then_open_round_trip() {
    let image = b"PNG-bytes-pretend-screenshot".to_vec();
    let b64 = base64::engine::general_purpose::STANDARD.encode(&image);
    let plan = prepare_attachment(&b64, &[7u8; 32], &vec![key(3)]).ok().unwrap();
    assert_eq!(plan.recipients, vec![[7u8; 32], [3u8; 32]]);
    assert_eq!(plan.image_ciphertext.len(), image.len() + 16);
    let opened = open_attachment(
        &plan.content_key.to_vec(),
        &plan.bulk_nonce.to_vec(),
        &plan.image_ciphertext,
    )
    .unwrap();
    assert_eq!(opened, b64);
}

#[test]
fn bad_base64_upload_is_rejected() {
    let err = prepare_attachment("**", &[7u8; 32], &vec![]).err().unwrap();
    assert!(err.starts_with("Invalid base64 attachment: "), "{err}");
}

#[test]
fn opening_checks_key_and_nonce_sizes() {
    assert_eq!(
        open_attachment(&vec![0; 31], &vec![0; 12], &vec![0; 40]).unwrap_err(),
        "Malformed unwrapped content key"
    );
    assert_eq!(
        open_attachment(&vec![0; 32], &vec![0; 11], &vec![0; 40]).unwrap_err(),
        "Malformed bulk nonce"
    );
    assert_eq!(
        open_attachment(&vec![0; 32], &vec![0; 12], &vec![0; 40]).unwrap_err(),
        "bulk_decrypt: opening failed (wrong key/nonce or tampered ciphertext)"
    );
}

#[test]
fn unwrap_request_finds_the_readers_copy() {
    let me = [4u8; 32];
    let per = vec![wrapped([1; 32], 24), wrapped(me, 24), wrapped(me, 10)];
    assert_eq!(find_recipient(&per, &me), Some(1));
    let req = unwrap_request(&per, &vec![1; 32], &me).ok().unwrap();
    assert_eq!(req.sender, [1u8; 32]);
    assert_eq!(req.nonce, [1u8; 24]);
    assert_eq!(req.wrapped_key, vec![9; 48]);
}

#[test]
fn unwrap_request_errors() {
    let me = [4u8; 32];
    let per = vec![wrapped([1; 32], 24)];
    assert_eq!(
        unwrap_request(&per, &vec![1; 32], &me).err().unwrap(),
        "You are not a recipient of this attachment."
    );
    let per = vec![wrapped(me, 24)];
    assert_eq!(
        unwrap_request(&per, &vec![1; 31], &me).err().unwrap(),
        "Malformed attachment sender key"
    );
    let per = vec![wrapped(me, 23)];
    assert_eq!(
        unwrap_request(&per, &vec![1; 32], &me).err().unwrap(),
        "Malformed attachment key-wrap nonce"
    );
}

#[test]
fn not_a_recipient_comes_before_a_bad_sender_key() {
    let me = [4u8; 32];
    let per = vec![wrapped([1; 32], 24)];
    assert_eq!(
        unwrap_request(&per, &vec![1; 5], &me).err().unwrap(),
        "You are not a recipient of this attachment."
    );
}
