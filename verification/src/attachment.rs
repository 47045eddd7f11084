//! Cohort-encrypted attachments on findings.
//!
//! An image is sealed once under a fresh content key, and that key is
//! wrapped to each member of the cohort: the uploader first, then every
//! administrator, each once. A reader finds their own wrapped copy, has the
//! keystore unwrap it, and opens the image with the content key.
//!
//! Wrapping and unwrapping the content key go through the keystore and are
//! the caller's; the functions here decide who is in the cohort, check what
//! was stored, and seal and open the image.

use vstd::prelude::*;

use crate::agent_key::{
    array_views, ed25519_bytes_from_agent, lemma_push_new, no_repeats, push_new, push_new_arrays,
    AgentPubKey,
};
use crate::bulk_crypto::{
    bulk_decrypt, bulk_encrypt, chacha20_poly1305_max_input, chacha20_poly1305_opened,
    chacha20_poly1305_sealed, seals_to,
};
use crate::codec::{decode_standard, encode_standard, standard_decoded, standard_encoded};
use crate::commands::exact_array;
use crate::integrity::RecipientWrappedKey;
use crate::text::{concat2, owned};

verus! {

/// The Ed25519 key inside each agent key.
pub open spec fn ed25519_views(keys: Seq<AgentPubKey>) -> Seq<Seq<u8>> {
    keys.map_values(|k: AgentPubKey| k.raw@.subrange(3, 35))
}

/// The cohort an attachment is wrapped to: the uploader, then each
/// administrator not already in it, in order.
pub open spec fn cohort(sender: Seq<u8>, admins: Seq<AgentPubKey>) -> Seq<Seq<u8>> {
    push_new(seq![sender], ed25519_views(admins))
}

/// The Ed25519 keys of the cohort: the uploader first, then every
/// administrator, none twice.
pub fn cohort_recipients(sender: &[u8; 32], admin_keys: &Vec<AgentPubKey>) -> (r: Vec<[u8; 32]>)
    ensures
        array_views(r@) == cohort(sender@, admin_keys@),
        array_views(r@)[0] == sender@,
        no_repeats(array_views(r@)),
        forall|x: Seq<u8>| #[trigger] array_views(r@).contains(x) <==> (x == sender@
            || ed25519_views(admin_keys@).contains(x)),
{
    let mut admins: Vec<[u8; 32]> = Vec::new();
    let mut i: usize = 0;
    while i < admin_keys.len()
        invariant
            i <= admin_keys@.len(),
            array_views(admins@) == ed25519_views(admin_keys@).subrange(0, i as int),
        decreases admin_keys@.len() - i,
    {
        let ed = ed25519_bytes_from_agent(&admin_keys[i]);
        let ghost before = admins@;
        admins.push(ed);
        assert(array_views(admins@) =~= array_views(before).push(ed@));
        assert(ed25519_views(admin_keys@).subrange(0, i + 1) =~= ed25519_views(admin_keys@).subrange(
            0,
            i as int,
        ).push(admin_keys@[i as int].raw@.subrange(3, 35)));
        i += 1;
    }
    assert(ed25519_views(admin_keys@).subrange(0, admin_keys@.len() as int) =~= ed25519_views(
        admin_keys@,
    ));
    let mut r: Vec<[u8; 32]> = Vec::new();
    r.push(*sender);
    assert(array_views(r@) =~= seq![sender@]);
    push_new_arrays(&mut r, &admins);
    proof {
        lemma_push_new(seq![sender@], ed25519_views(admin_keys@));
        let out = array_views(r@);
        assert(out.subrange(0, 1)[0] == out[0]);
        assert(seq![sender@][0] == sender@);
        assert(no_repeats(seq![sender@]));
        assert forall|x: Seq<u8>| #[trigger] seq![sender@].contains(x) <==> x == sender@ by {
            if seq![sender@].contains(x) {
                let i = choose|i: int| 0 <= i < 1 && seq![sender@][i] == x;
            }
            if x == sender@ {
                assert(seq![sender@][0] == x);
            }
        }
    }
    r
}

/// What an upload needs once its image is sealed: the cohort to wrap the
/// content key to, the content key, the nonce, and the sealed image.
pub struct AttachmentPlan {
    pub recipients: Vec<[u8; 32]>,
    pub content_key: [u8; 32],
    pub bulk_nonce: [u8; 12],
    pub image_ciphertext: Vec<u8>,
}

/// Prepares an attachment for upload: decodes the image from standard
/// base64, seals it under a fresh content key, and names the cohort.
pub fn prepare_attachment(base64_bytes: &str, sender: &[u8; 32], admin_keys: &Vec<AgentPubKey>) -> (r:
    Result<AttachmentPlan, String>)
    requires
        base64_bytes@.len() + 16 <= isize::MAX,
    ensures
        match standard_decoded(base64_bytes@) {
            Err(d) => r matches Err(e) && e@ == "Invalid base64 attachment: "@ + d.1,
            Ok(image) => match r {
                Ok(plan) => {
                    &&& array_views(plan.recipients@) == cohort(sender@, admin_keys@)
                    &&& plan.image_ciphertext@ == chacha20_poly1305_sealed(
                        plan.content_key@,
                        plan.bulk_nonce@,
                        image,
                    )
                    &&& plan.image_ciphertext@.len() == image.len() + 16
                    &&& seals_to(plan.content_key@, plan.bulk_nonce@, image, plan.image_ciphertext@)
                },
                Err(e) => {
                    ||| e@ == "bulk_encrypt: failed to generate content key"@
                    ||| e@ == "bulk_encrypt: failed to generate nonce"@
                    ||| (e@ == "bulk_encrypt: sealing failed"@ && image.len()
                        > chacha20_poly1305_max_input())
                },
            },
        },
{
    let image = match decode_standard(base64_bytes) {
        Ok(b) => b,
        Err(f) => return Err(concat2("Invalid base64 attachment: ", f.debug.as_str())),
    };
    let recipients = cohort_recipients(sender, admin_keys);
    match bulk_encrypt(image.as_slice()) {
        Ok((content_key, bulk_nonce, image_ciphertext)) => Ok(
            AttachmentPlan { recipients, content_key, bulk_nonce, image_ciphertext },
        ),
        Err(e) => Err(e),
    }
}

/// Finds the first wrapped key addressed to `me`.
pub fn find_recipient(per_recipient: &Vec<RecipientWrappedKey>, me: &[u8; 32]) -> (r: Option<usize>)
    ensures
        match r {
            Some(i) => i < per_recipient@.len() && per_recipient@[i as int].recipient_ed25519@ == me@
                && forall|j: int| 0 <= j < i ==> (#[trigger] per_recipient@[j]).recipient_ed25519@ != me@,
            None => forall|j: int|
                0 <= j < per_recipient@.len() ==> (#[trigger] per_recipient@[j]).recipient_ed25519@ != me@,
        },
{
    let mut i: usize = 0;
    while i < per_recipient.len()
        invariant
            i <= per_recipient@.len(),
            forall|j: int| 0 <= j < i ==> (#[trigger] per_recipient@[j]).recipient_ed25519@ != me@,
        decreases per_recipient@.len() - i,
    {
        if crate::agent_key::bytes_equal(per_recipient[i].recipient_ed25519.as_slice(), me.as_slice()) {
            return Some(i);
        }
        i += 1;
    }
    None
}

/// What the keystore needs to unwrap a reader's content key.
pub struct UnwrapRequest {
    pub sender: [u8; 32],
    pub nonce: [u8; 24],
    pub wrapped_key: Vec<u8>,
}

/// `i` is the first entry addressed to `me`.
pub open spec fn first_for(per_recipient: Seq<RecipientWrappedKey>, me: Seq<u8>, i: int) -> bool {
    &&& 0 <= i < per_recipient.len()
    &&& per_recipient[i].recipient_ed25519@ == me
    &&& forall|j: int| 0 <= j < i ==> (#[trigger] per_recipient[j]).recipient_ed25519@ != me
}

/// Picks the reader's wrapped content key from a stored attachment and
/// checks that it can be unwrapped. The checks come in order: the reader
/// must be a recipient (the first entry addressed to them is theirs), then
/// the sender key must be 32 bytes, then that entry's wrapping nonce 24.
pub fn unwrap_request(per_recipient: &Vec<RecipientWrappedKey>, sender_ed25519: &Vec<u8>, me: &[u8; 32]) -> (r:
    Result<UnwrapRequest, String>)
    ensures
        (forall|j: int|
            0 <= j < per_recipient@.len() ==> (#[trigger] per_recipient@[j]).recipient_ed25519@
                != me@) ==> (r matches Err(e) && e@ == "You are not a recipient of this attachment."@),
        forall|i: int|
            #[trigger] first_for(per_recipient@, me@, i) ==> if sender_ed25519@.len() != 32 {
                r matches Err(e) && e@ == "Malformed attachment sender key"@
            } else if per_recipient@[i].nonce@.len() != 24 {
                r matches Err(e) && e@ == "Malformed attachment key-wrap nonce"@
            } else {
                r matches Ok(req) && req.sender@ == sender_ed25519@ && req.nonce@
                    == per_recipient@[i].nonce@ && req.wrapped_key@ == per_recipient@[i].wrapped_key@
            },
{
    let i = match find_recipient(per_recipient, me) {
        Some(i) => i,
        None => return Err(owned("You are not a recipient of this attachment.")),
    };
    assert(first_for(per_recipient@, me@, i as int));
    assert forall|k: int| #[trigger] first_for(per_recipient@, me@, k) implies k == i by {
        if k < i {
            assert(per_recipient@[k].recipient_ed25519@ != me@);
        } else if k > i {
            assert(per_recipient@[i as int].recipient_ed25519@ != me@);
        }
    }
    let sender: [u8; 32] = match exact_array(sender_ed25519) {
        Some(a) => a,
        None => return Err(owned("Malformed attachment sender key")),
    };
    let mine = &per_recipient[i];
    let nonce: [u8; 24] = match exact_array(&mine.nonce) {
        Some(a) => a,
        None => return Err(owned("Malformed attachment key-wrap nonce")),
    };
    Ok(UnwrapRequest { sender, nonce, wrapped_key: mine.wrapped_key.clone() })
}

/// Opens the image once the reader's content key is unwrapped, and gives it
/// in standard base64. The unwrapped key must be 32 bytes and the stored
/// nonce 12.
pub fn open_attachment(content_key: &Vec<u8>, bulk_nonce: &Vec<u8>, image_ciphertext: &Vec<u8>) -> (r:
    Result<String, String>)
    requires
        image_ciphertext@.len() <= isize::MAX,
    ensures
        content_key@.len() != 32 ==> (r matches Err(e) && e@ == "Malformed unwrapped content key"@),
        content_key@.len() == 32 && bulk_nonce@.len() != 12 ==> (r matches Err(e) && e@
            == "Malformed bulk nonce"@),
        content_key@.len() == 32 && bulk_nonce@.len() == 12 ==> match chacha20_poly1305_opened(
            content_key@,
            bulk_nonce@,
            image_ciphertext@,
        ) {
            Some(image) => r matches Ok(text) && text@ == standard_encoded(image),
            None => r matches Err(e) && e@
                == "bulk_decrypt: opening failed (wrong key/nonce or tampered ciphertext)"@,
        },
        forall|m: Seq<u8>|
            content_key@.len() == 32 && bulk_nonce@.len() == 12 && #[trigger] seals_to(
                content_key@,
                bulk_nonce@,
                m,
                image_ciphertext@,
            ) ==> (r matches Ok(text) && text@ == standard_encoded(m)),
{
    let key: [u8; 32] = match exact_array(content_key) {
        Some(a) => a,
        None => return Err(owned("Malformed unwrapped content key")),
    };
    let nonce: [u8; 12] = match exact_array(bulk_nonce) {
        Some(a) => a,
        None => return Err(owned("Malformed bulk nonce")),
    };
    match bulk_decrypt(&key, &nonce, image_ciphertext.as_slice()) {
        Ok(image) => Ok(encode_standard(image.as_slice())),
        Err(e) => Err(e),
    }
}

} // verus!
