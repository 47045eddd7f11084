//! The app's command layer: the types the frontend sees, and the rules the
//! commands apply before and after they talk to the conductor, the keystore
//! and the disk — which errors a user sees and in what words, which checks
//! guard each write, how the user's set of agent keys is resolved, how drafts
//! and backups are read, and how the runtime environment is stamped.
//!
//! The commands themselves (locking state, calling zomes, reading files) are
//! the caller's; they hand these functions plain values.

use rand::Rng;
use vstd::prelude::*;

use crate::agent_key::{
    agent_key_parse, agent_key_string, key_text, key_views, lemma_push_new, no_repeats,
    parse_agent_pub_key_string, push_new, push_new_keys, AgentPubKey,
};
use crate::codec::{decode_standard, hex_encode, hex_lower, standard_decoded, standard_encoded};
use crate::conductor::ConductorStatus;
use crate::integrity::{ActionHash, ItemKind, RecipientWrappedKey, Signature, Verdict};
use crate::text::{
    concat2, contains, find_from, is_blank, owned, push_char, str_contains, str_eq,
    str_find_from, str_is_blank, str_trim_end_matches, trim_end_matches,
};

verus! {

/// Whether a poll's votes are anonymous or public.
#[derive(Clone, Copy, PartialEq, Eq, Structural, Debug)]
pub enum PollType {
    Anonymous,
    Public,
}

/// A poll (polls of the first two versions carry no type and count as
/// anonymous).
pub struct Poll {
    pub title: String,
    pub description: String,
    pub options: Vec<String>,
    pub created_at: i64,
    pub closes_at: Option<i64>,
    pub poll_type: Option<PollType>,
}

/// A vote on a poll; the name and picture only on public polls.
pub struct Vote {
    pub poll_action_hash: ActionHash,
    pub option_index: u32,
    pub display_name: Option<String>,
    pub profile_picture: Option<String>,
}

/// The input for creating a poll; the type only for versions that have one.
pub struct CreatePollInput {
    pub title: String,
    pub description: String,
    pub options: Vec<String>,
    pub closes_at: Option<i64>,
    pub poll_type: Option<String>,
}

/// A poll in a list, with the version of the network it lives on.
pub struct PollListItem {
    pub hash: String,
    pub poll: Poll,
    pub author: String,
    pub dna_version: String,
}

/// A poll's detail view.
pub struct PollDetail {
    pub poll: Poll,
    pub author: String,
    pub dna_version: String,
}

/// A vote as the frontend sees it.
pub struct VoteResponse {
    pub hash: String,
    pub poll_action_hash: String,
    pub option_index: u32,
}

/// A vote with its author, and on a public poll the voter's name and picture.
pub struct VoteData {
    pub vote: VoteResponse,
    pub author: String,
    pub display_name: Option<String>,
    pub profile_picture: Option<String>,
}

/// A scenario or feedback item as the frontend sees it.
pub struct Item {
    pub kind: ItemKind,
    pub campaign: String,
    pub section: String,
    pub title: String,
    pub instructions: String,
    pub look_for: String,
    pub order: u32,
    pub created_at: i64,
}

/// An item in a list.
pub struct ItemListItem {
    pub hash: String,
    pub item: Item,
    pub author: String,
}

/// An item's detail view.
pub struct ItemDetail {
    pub item: Item,
    pub author: String,
}

/// A verdict as the frontend sees it.
pub struct ResponseData {
    pub hash: String,
    pub item_action_hash: String,
    pub verdict: Verdict,
    pub author: String,
    pub created_at: i64,
}

/// A finding as the frontend sees it.
pub struct FindingData {
    pub hash: String,
    pub item_action_hash: String,
    pub text: String,
    pub author: String,
    pub created_at: i64,
}

/// What the frontend polls to know whether it can start.
pub struct AppStatus {
    pub ready: bool,
    pub agent_pub_key: Option<String>,
    pub conductor_status: ConductorStatus,
}

/// The local record of a link to the user's Vault identity.
pub struct IdentityLinkData {
    pub vault_agent_pub_key: String,
    pub entry_action_hash: String,
    pub linked_at: i64,
}

/// The user's name and picture, cached so the app can show them while the
/// Vault is closed.
pub struct CachedProfile {
    pub display_name: Option<String>,
    pub profile_picture: Option<String>,
}

/// A flag as the frontend sees it.
pub struct FlagResponse {
    pub poll_action_hash: String,
    pub reason: String,
    pub created_at: i64,
}

/// A flag with its author.
pub struct FlagData {
    pub hash: String,
    pub flag: FlagResponse,
    pub author: String,
}

/// Why a poll was flagged.
#[derive(Clone, Copy, PartialEq, Eq, Structural, Debug)]
pub enum FlagReason {
    Spam,
    Misleading,
    OffTopic,
    Inappropriate,
}

impl FlagReason {
    /// The reason's name, as it is displayed.
    pub open spec fn text(self) -> Seq<char> {
        match self {
            FlagReason::Spam => "Spam"@,
            FlagReason::Misleading => "Misleading"@,
            FlagReason::OffTopic => "OffTopic"@,
            FlagReason::Inappropriate => "Inappropriate"@,
        }
    }

    /// Renders the reason as it is displayed.
    pub fn to_display_string(&self) -> (r: String)
        ensures
            r@ == self.text(),
    {
        match self {
            FlagReason::Spam => owned("Spam"),
            FlagReason::Misleading => owned("Misleading"),
            FlagReason::OffTopic => owned("OffTopic"),
            FlagReason::Inappropriate => owned("Inappropriate"),
        }
    }
}

/// A draft poll, decrypted, as the frontend sees it.
pub struct DraftPollItem {
    pub hash: String,
    pub title: String,
    pub description: String,
    pub options: Vec<String>,
    pub closes_at: Option<i64>,
    pub poll_type: String,
    pub created_at: i64,
}

/// The input for storing an encrypted attachment on a finding.
pub struct StoreAttachmentInput {
    pub finding_action_hash: ActionHash,
    pub image_ciphertext: Vec<u8>,
    pub bulk_nonce: Vec<u8>,
    pub per_recipient: Vec<RecipientWrappedKey>,
    pub sender_ed25519: Vec<u8>,
    pub media_hint: String,
}

/// The part of `raw` after the first `InternalError("` and before the next
/// one (or the end), as `raw.split(..).nth(1)` gives it.
pub open spec fn internal_error_piece(raw: Seq<char>) -> Option<Seq<char>> {
    let pat = "InternalError(\""@;
    match find_from(raw, pat, 0) {
        None => None,
        Some(i) => {
            let start = i + pat.len();
            match find_from(raw, pat, start) {
                Some(j) => Some(raw.subrange(start, j)),
                None => Some(raw.subrange(start, raw.len() as int)),
            }
        },
    }
}

/// The message a user sees for a raw conductor error.
pub open spec fn friendly_text(raw: Seq<char>) -> Seq<char> {
    if contains(raw, "CellDisabled"@) {
        "Your data cell was temporarily disabled and could not be recovered automatically. Please restart the app."@
    } else if contains(raw, "WebsocketError"@) || contains(raw, "ConnectionReset"@) || contains(
        raw,
        "Io("@,
    ) {
        "Lost connection to the Holochain conductor. It may have stopped unexpectedly."@
    } else if contains(raw, "timeout"@) || contains(raw, "Timeout"@) {
        "The request timed out. The network may be slow or unreachable."@
    } else if contains(raw, "Conductor returned an error"@) {
        match internal_error_piece(raw) {
            Some(inner) => "Conductor error: "@ + trim_end_matches(inner, "\")"@),
            None => "Conductor error: "@ + raw,
        }
    } else {
        "Something went wrong: "@ + raw
    }
}

/// Translates a raw conductor error into words a user can act on,
/// unwrapping the conductor's nested internal error where there is one.
pub fn friendly_error(raw: &str) -> (r: String)
    ensures
        r@ == friendly_text(raw@),
{
    if str_contains(raw, "CellDisabled") {
        owned(
            "Your data cell was temporarily disabled and could not be recovered automatically. Please restart the app.",
        )
    } else if str_contains(raw, "WebsocketError") || str_contains(raw, "ConnectionReset")
        || str_contains(raw, "Io(") {
        owned("Lost connection to the Holochain conductor. It may have stopped unexpectedly.")
    } else if str_contains(raw, "timeout") || str_contains(raw, "Timeout") {
        owned("The request timed out. The network may be slow or unreachable.")
    } else if str_contains(raw, "Conductor returned an error") {
        let pat = "InternalError(\"";
        proof {
            reveal_strlit("InternalError(\"");
            reveal_strlit("\")");
        }
        let pat_len: usize = 15;
        match str_find_from(raw, pat, 0) {
            Some(i) => {
                proof {
                    crate::text::lemma_find_from_bounds(raw@, pat@, 0);
                }
                let n = raw.unicode_len();
                let start = i + pat_len;
                let end = match str_find_from(raw, pat, start) {
                    Some(j) => {
                        proof {
                            crate::text::lemma_find_from_bounds(raw@, pat@, start as int);
                        }
                        j
                    },
                    None => n,
                };
                let inner = raw.substring_char(start, end);
                concat2("Conductor error: ", str_trim_end_matches(inner, "\")"))
            },
            None => concat2("Conductor error: ", raw),
        }
    } else {
        concat2("Something went wrong: ", raw)
    }
}

/// What joining `name` onto the directory `dir` gives, as
/// `Path::join` builds it and `to_string_lossy` renders it.
pub uninterp spec fn path_joined(dir: Seq<char>, name: Seq<char>) -> Seq<char>;

/// Calls `std::path::Path::join` on the directory `dir` and renders the
/// result as text (lossless here, since both parts are text). The contract
/// claims only that the result is the named join.
#[verifier::external_body]
fn join_path(dir: &str, name: &str) -> (r: String)
    ensures
        r@ == path_joined(dir@, name@),
{
    std::path::Path::new(dir).join(name).to_string_lossy().into_owned()
}

/// The file that records the link to the user's Vault identity.
pub fn identity_link_path(data_dir: &str) -> (r: String)
    ensures
        r@ == path_joined(data_dir@, "identity-link.json"@),
{
    join_path(data_dir, "identity-link.json")
}

/// The file that caches the user's name and picture.
pub fn profile_cache_path(data_dir: &str) -> (r: String)
    ensures
        r@ == path_joined(data_dir@, "profile-cache.json"@),
{
    join_path(data_dir, "profile-cache.json")
}

/// The app's status for the frontend: ready once the conductor is ready.
pub fn get_app_status(conductor_status: ConductorStatus, agent_pub_key: Option<String>) -> (r:
    AppStatus)
    ensures
        r.ready == (conductor_status is Ready),
        r.agent_pub_key == agent_pub_key,
        r.conductor_status == conductor_status,
{
    let ready = match conductor_status {
        ConductorStatus::Ready { .. } => true,
        _ => false,
    };
    AppStatus { ready, agent_pub_key, conductor_status }
}

/// The runtime stamp: the operating system (spelled `macOS` on a Mac), its
/// version unless unknown, and the architecture in brackets when known.
pub open spec fn environment_stamp(
    is_macos: bool,
    os_type: Seq<char>,
    version: Seq<char>,
    architecture: Option<Seq<char>>,
) -> Seq<char> {
    let os = if is_macos {
        "macOS"@
    } else {
        os_type
    };
    let base = if version.len() == 0 || version == "Unknown"@ {
        os
    } else {
        os + " "@ + version
    };
    match architecture {
        Some(arch) => base + " ("@ + arch + ")"@,
        None => base,
    }
}

/// Stamps the runtime environment, e.g. `macOS 26.1 (arm64)`, from what the
/// host reports: whether it is a Mac, the operating system's name and
/// version, and the architecture if known.
pub fn app_environment(is_macos: bool, os_type: &str, version: &str, architecture: Option<&str>) -> (r:
    String)
    ensures
        r@ == environment_stamp(
            is_macos,
            os_type@,
            version@,
            match architecture {
                Some(a) => Some(a@),
                None => None,
            },
        ),
{
    let os = if is_macos {
        "macOS"
    } else {
        os_type
    };
    let mut base = String::from_str(os);
    if !(version.is_empty() || str_eq(version, "Unknown")) {
        base.append(" ");
        base.append(version);
    }
    match architecture {
        Some(arch) => {
            base.append(" (");
            base.append(arch);
            base.append(")");
            base
        },
        None => base,
    }
}

#[verifier::external_type_specification]
#[verifier::external_body]
pub struct ExThreadRng(rand::rngs::ThreadRng);

/// `rand::thread_rng`: the thread's generator, seeded from the operating
/// system. Nothing is claimed of it. When the operating system's random
/// source fails while the generator is first built, the call panics; that
/// is a failure of the environment, not of any input, so no `requires` can
/// rule it out.
pub assume_specification[ rand::thread_rng ]() -> (r: rand::rngs::ThreadRng);

/// An ASCII letter or digit.
pub open spec fn is_alphanumeric_ascii(c: char) -> bool {
    ('a' <= c && c <= 'z') || ('A' <= c && c <= 'Z') || ('0' <= c && c <= '9')
}

/// Calls `Rng::sample(Alphanumeric)` of `rand`, which draws uniformly from
/// the 62 ASCII letters and digits. The contract claims only that the byte
/// is one of them. The draw panics if a periodic reseed from the operating
/// system fails, an environment failure that no `requires` can rule out.
#[verifier::external_body]
fn sample_alphanumeric(rng: &mut rand::rngs::ThreadRng) -> (r: u8)
    ensures
        is_alphanumeric_ascii(r as char),
{
    rng.sample(rand::distributions::Alphanumeric)
}

/// A fresh keystore passphrase: 32 random ASCII letters and digits.
pub fn generate_passphrase() -> (r: String)
    ensures
        r@.len() == 32,
        forall|i: int| 0 <= i < 32 ==> is_alphanumeric_ascii(#[trigger] r@[i]),
{
    let mut rng = rand::thread_rng();
    let mut r = String::new();
    let mut i: usize = 0;
    while i < 32
        invariant
            i <= 32,
            r@.len() == i,
            forall|j: int| 0 <= j < i ==> is_alphanumeric_ascii(#[trigger] r@[j]),
        decreases 32 - i,
    {
        let b = sample_alphanumeric(&mut rng);
        push_char(&mut r, b as char);
        i += 1;
    }
    r
}

/// Whether the keystore's three paired files (passphrase, configuration,
/// encrypted store) are all present or all absent; any other mix is
/// orphaned state that can only be wiped.
pub fn lair_state_consistent(passphrase: bool, config: bool, store: bool) -> (r: bool)
    ensures
        r == ((passphrase && config && store) || (!passphrase && !config && !store)),
{
    (passphrase && config && store) || (!passphrase && !config && !store)
}

/// Refuses a write unless the user has linked a Vault identity (a frontend
/// gate alone can be bypassed): "Sign in with Flowsta to" what was tried.
pub fn require_linked(linked: bool, action: &str) -> (r: Result<(), String>)
    ensures
        linked <==> r is Ok,
        r matches Err(e) ==> e@ == "Sign in with Flowsta to "@ + action@,
{
    if linked {
        Ok(())
    } else {
        Err(concat2("Sign in with Flowsta to ", action))
    }
}

/// Refuses a command while the conductor's app interface is not connected.
pub fn require_client(ready: bool) -> (r: Result<(), String>)
    ensures
        ready <==> r is Ok,
        r matches Err(e) ==> e@ == "Conductor not ready"@,
{
    if ready {
        Ok(())
    } else {
        Err(owned("Conductor not ready"))
    }
}

/// What creating an item checks, in order: a linked identity, a connected
/// conductor, and for a scenario an administrator grant to cite.
pub open spec fn create_item_check(linked: bool, client_ready: bool, kind: ItemKind, has_grant: bool) -> Result<
    (),
    Seq<char>,
> {
    if !linked {
        Err("Sign in with Flowsta to create scenarios"@)
    } else if !client_ready {
        Err("Conductor not ready"@)
    } else if kind == ItemKind::Scenario && !has_grant {
        Err("Scenario items require an admin_grant_action_hash"@)
    } else {
        Ok(())
    }
}

/// The plain-value form of a check's result.
pub open spec fn check_view(r: Result<(), String>) -> Result<(), Seq<char>> {
    match r {
        Ok(_) => Ok(()),
        Err(e) => Err(e@),
    }
}

/// Checks a request to create an item before it is sent.
pub fn create_item_preflight(linked: bool, client_ready: bool, kind: ItemKind, has_grant: bool) -> (r:
    Result<(), String>)
    ensures
        check_view(r) == create_item_check(linked, client_ready, kind, has_grant),
{
    proof {
        reveal_strlit("Sign in with Flowsta to ");
        reveal_strlit("create scenarios");
        reveal_strlit("Sign in with Flowsta to create scenarios");
        assert("Sign in with Flowsta to "@ + "create scenarios"@ =~= "Sign in with Flowsta to create scenarios"@);
    }
    if let Err(e) = require_linked(linked, "create scenarios") {
        return Err(e);
    }
    if let Err(e) = require_client(client_ready) {
        return Err(e);
    }
    if kind == ItemKind::Scenario && !has_grant {
        return Err(owned("Scenario items require an admin_grant_action_hash"));
    }
    Ok(())
}

/// Creating an item needs a signed-in user and a connected conductor; then
/// it is refused exactly when it is a scenario without a grant.
pub proof fn law_create_item_gate(linked: bool, client_ready: bool, kind: ItemKind, has_grant: bool)
    ensures
        !linked || !client_ready ==> create_item_check(linked, client_ready, kind, has_grant) is Err,
        linked && client_ready ==> (create_item_check(linked, client_ready, kind, has_grant) is Err
            <==> (kind == ItemKind::Scenario && !has_grant)),
{
}

/// What an item of an import batch is, as far as the checks go: the `kind`
/// field when it is text, and whether it carries a grant.
pub struct ImportItemShape {
    pub kind: Option<String>,
    pub has_grant: bool,
}

/// An imported item that is a scenario without a grant.
pub open spec fn ungranted_scenario(item: ImportItemShape) -> bool {
    item.kind matches Some(k) && k@ == "Scenario"@ && !item.has_grant
}

/// What importing a batch checks, in order: a linked identity, a connected
/// conductor, and a grant on every scenario.
pub open spec fn import_items_check(linked: bool, client_ready: bool, items: Seq<ImportItemShape>) -> Result<
    (),
    Seq<char>,
> {
    if !linked {
        Err("Sign in with Flowsta to import scenarios"@)
    } else if !client_ready {
        Err("Conductor not ready"@)
    } else if exists|i: int| 0 <= i < items.len() && ungranted_scenario(#[trigger] items[i]) {
        Err("All Scenario items require admin_grant_action_hash"@)
    } else {
        Ok(())
    }
}

/// Checks a batch import before it is sent.
pub fn import_items_preflight(linked: bool, client_ready: bool, items: &Vec<ImportItemShape>) -> (r:
    Result<(), String>)
    ensures
        check_view(r) == import_items_check(linked, client_ready, items@),
{
    proof {
        reveal_strlit("Sign in with Flowsta to ");
        reveal_strlit("import scenarios");
        reveal_strlit("Sign in with Flowsta to import scenarios");
        assert("Sign in with Flowsta to "@ + "import scenarios"@ =~= "Sign in with Flowsta to import scenarios"@);
    }
    if let Err(e) = require_linked(linked, "import scenarios") {
        return Err(e);
    }
    if let Err(e) = require_client(client_ready) {
        return Err(e);
    }
    let mut i: usize = 0;
    while i < items.len()
        invariant
            linked && client_ready,
            i <= items@.len(),
            forall|j: int| 0 <= j < i ==> !ungranted_scenario(#[trigger] items@[j]),
        decreases items@.len() - i,
    {
        let scenario = match &items[i].kind {
            Some(k) => str_eq(k.as_str(), "Scenario"),
            None => false,
        };
        if scenario && !items[i].has_grant {
            assert(ungranted_scenario(items@[i as int]));
            return Err(owned("All Scenario items require admin_grant_action_hash"));
        }
        i += 1;
    }
    Ok(())
}

/// A batch import is refused as soon as any item in it, at any position, is
/// a scenario without a grant, once the user is signed in and the conductor
/// is connected; a batch with no such item passes.
pub proof fn law_import_refuses_any_ungranted_scenario(items: Seq<ImportItemShape>, i: int)
    requires
        0 <= i < items.len(),
        items[i].kind matches Some(k) && k@ == "Scenario"@,
        !items[i].has_grant,
    ensures
        import_items_check(true, true, items) == Err::<(), Seq<char>>(
            "All Scenario items require admin_grant_action_hash"@,
        ),
{
    assert(ungranted_scenario(items[i]));
}

/// A batch in which every scenario carries a grant passes the checks of a
/// signed-in user with a connected conductor.
pub proof fn law_import_accepts_granted_batches(items: Seq<ImportItemShape>)
    requires
        forall|j: int|
            0 <= j < items.len() ==> !((#[trigger] items[j]).kind matches Some(k) && k@ == "Scenario"@)
                || items[j].has_grant,
    ensures
        import_items_check(true, true, items) == Ok::<(), Seq<char>>(()),
{
}

/// What adding an administrator checks, in order: a key that is not blank
/// and parses, a connected conductor, and a 64-byte signature; then the
/// grant's key and signature.
pub open spec fn administrator_check(
    admin_pubkey: Seq<char>,
    client_ready: bool,
    signature: Seq<u8>,
) -> Result<(Seq<u8>, Seq<u8>), Seq<char>> {
    if is_blank(admin_pubkey) {
        Err("admin_pubkey_str must not be empty"@)
    } else {
        match agent_key_parse(admin_pubkey) {
            Err(_) => Err("Invalid admin pubkey format"@),
            Ok(raw) => if !client_ready {
                Err("Conductor not ready"@)
            } else if signature.len() != 64 {
                Err("signature must be 64 bytes, got "@ + crate::text::decimal(signature.len()))
            } else {
                Ok((raw, signature))
            },
        }
    }
}

/// Checks a request to grant administrator rights, given the key to grant
/// and the progenitor's signature over its raw bytes, and builds the grant's
/// key and signature.
pub fn administrator_request(admin_pubkey_str: &str, client_ready: bool, progenitor_signature: &Vec<u8>) -> (r:
    Result<(AgentPubKey, Signature), String>)
    ensures
        match r {
            Ok((k, sig)) => administrator_check(admin_pubkey_str@, client_ready, progenitor_signature@)
                == Ok::<(Seq<u8>, Seq<u8>), Seq<char>>((k.raw@, sig.bytes@)),
            Err(e) => administrator_check(admin_pubkey_str@, client_ready, progenitor_signature@)
                == Err::<(Seq<u8>, Seq<u8>), Seq<char>>(e@),
        },
{
    if str_is_blank(admin_pubkey_str) {
        return Err(owned("admin_pubkey_str must not be empty"));
    }
    let admin = match parse_agent_pub_key_string(admin_pubkey_str) {
        Ok(k) => k,
        Err(_) => return Err(owned("Invalid admin pubkey format")),
    };
    if let Err(e) = require_client(client_ready) {
        return Err(e);
    }
    if progenitor_signature.len() != 64 {
        let n = crate::text::decimal_string(progenitor_signature.len() as u64);
        return Err(concat2("signature must be 64 bytes, got ", n.as_str()));
    }
    let bytes: [u8; 64] = crate::agent_key::array_from(progenitor_signature.as_slice(), 0);
    assert(progenitor_signature@.subrange(0, 64) =~= progenitor_signature@);
    Ok((admin, Signature { bytes }))
}

/// A grant request whose key parses, on a connected conductor, is accepted
/// exactly when the progenitor's signature is 64 bytes, and then carries that
/// key's raw bytes and that signature unchanged.
pub proof fn law_administrator_request_needs_full_signature(admin_pubkey: Seq<char>, signature: Seq<u8>)
    requires
        !is_blank(admin_pubkey),
        agent_key_parse(admin_pubkey) is Ok,
    ensures
        administrator_check(admin_pubkey, true, signature) is Ok <==> signature.len() == 64,
        administrator_check(admin_pubkey, true, signature) matches Ok((k, sig)) ==> k
            == agent_key_parse(admin_pubkey)->Ok_0 && sig == signature,
        administrator_check(admin_pubkey, false, signature) is Err,
{
}

/// What linking the Vault identity checks, in order: a connected conductor,
/// a Vault key that parses, and a signature in standard base64; then the key
/// and the signature's bytes.
pub open spec fn identity_link_check(client_ready: bool, vault_key: Seq<char>, signature: Seq<char>) -> Result<
    (Seq<u8>, Seq<u8>),
    Seq<char>,
> {
    if !client_ready {
        Err("Conductor not ready"@)
    } else {
        match agent_key_parse(vault_key) {
            Err(e) => Err(e),
            Ok(raw) => match standard_decoded(signature) {
                Err(d) => Err("Invalid signature: "@ + d.0),
                Ok(sig) => Ok((raw, sig)),
            },
        }
    }
}

/// Checks a request to link the Vault identity and builds the external
/// link's key and signature.
pub fn identity_link_request(client_ready: bool, vault_agent_pub_key: &str, vault_signature: &str) -> (r:
    Result<(AgentPubKey, Vec<u8>), String>)
    ensures
        match r {
            Ok((k, sig)) => identity_link_check(client_ready, vault_agent_pub_key@, vault_signature@)
                == Ok::<(Seq<u8>, Seq<u8>), Seq<char>>((k.raw@, sig@)),
            Err(e) => identity_link_check(client_ready, vault_agent_pub_key@, vault_signature@)
                == Err::<(Seq<u8>, Seq<u8>), Seq<char>>(e@),
        },
        forall|raw: Seq<u8>, sig: Seq<u8>|
            client_ready && raw.len() == 39 && vault_agent_pub_key@ == #[trigger] key_text(raw)
                && vault_signature@ == #[trigger] standard_encoded(sig) ==> (r matches Ok((k, s))
                && k.raw@ == raw && s@ == sig),
{
    if let Err(e) = require_client(client_ready) {
        return Err(e);
    }
    let external = match parse_agent_pub_key_string(vault_agent_pub_key) {
        Ok(k) => k,
        Err(e) => return Err(e),
    };
    match decode_standard(vault_signature) {
        Ok(sig) => Ok((external, sig)),
        Err(f) => Err(concat2("Invalid signature: ", f.display.as_str())),
    }
}

/// The Vault signature is read as standard base64 (with padding): for a
/// signed-in request whose key parses, the check gives the key and exactly
/// the bytes that standard decoding gives, and refuses exactly the
/// signatures standard decoding refuses.
pub proof fn law_identity_link_reads_standard_base64(vault_key: Seq<char>, signature: Seq<char>)
    requires
        agent_key_parse(vault_key) is Ok,
    ensures
        standard_decoded(signature) matches Ok(sig) ==> identity_link_check(true, vault_key, signature)
            == Ok::<(Seq<u8>, Seq<u8>), Seq<char>>((agent_key_parse(vault_key)->Ok_0, sig)),
        standard_decoded(signature) is Err ==> identity_link_check(true, vault_key, signature) is Err,
{
}

/// The user's agent keys, as a list without repeats: the local agent, then
/// each agent linked to one of the identity hubs the local agent is linked
/// to, in the order the lookups returned them.
pub open spec fn agent_set_of(local: Seq<u8>, lists: Seq<Seq<Seq<u8>>>) -> Seq<Seq<u8>>
    decreases lists.len(),
{
    if lists.len() == 0 {
        seq![local]
    } else {
        push_new(agent_set_of(local, lists.drop_last()), lists.last())
    }
}

/// The raw bytes of the keys of each list.
pub open spec fn lists_view(lists: Seq<Vec<AgentPubKey>>) -> Seq<Seq<Seq<u8>>> {
    lists.map_values(|l: Vec<AgentPubKey>| key_views(l@))
}

proof fn lemma_agent_set(local: Seq<u8>, lists: Seq<Seq<Seq<u8>>>)
    ensures
        agent_set_of(local, lists).len() > 0,
        agent_set_of(local, lists)[0] == local,
        no_repeats(agent_set_of(local, lists)),
        forall|x: Seq<u8>| #[trigger] agent_set_of(local, lists).contains(x) <==> (x == local || exists|j: int|
            0 <= j < lists.len() && (#[trigger] lists[j]).contains(x)),
    decreases lists.len(),
{
    if lists.len() == 0 {
        assert(seq![local][0] == local);
        assert(seq![local].contains(local));
        assert forall|x: Seq<u8>| #[trigger] seq![local].contains(x) implies x == local by {
            let i = choose|i: int| 0 <= i < 1 && seq![local][i] == x;
        }
    } else {
        let prev = agent_set_of(local, lists.drop_last());
        lemma_agent_set(local, lists.drop_last());
        lemma_push_new(prev, lists.last());
        let out = agent_set_of(local, lists);
        assert(out.subrange(0, prev.len() as int)[0] == out[0]);
        assert forall|x: Seq<u8>| #[trigger] out.contains(x) <==> (x == local || exists|j: int|
            0 <= j < lists.len() && (#[trigger] lists[j]).contains(x)) by {
            if exists|j: int| 0 <= j < lists.drop_last().len() && (#[trigger] lists.drop_last()[j]).contains(x) {
                let j = choose|j: int| 0 <= j < lists.drop_last().len() && (#[trigger] lists.drop_last()[j]).contains(x);
                assert(lists[j] == lists.drop_last()[j]);
            }
            if exists|j: int| 0 <= j < lists.len() && (#[trigger] lists[j]).contains(x) {
                let j = choose|j: int| 0 <= j < lists.len() && (#[trigger] lists[j]).contains(x);
                if j < lists.len() - 1 {
                    assert(lists.drop_last()[j] == lists[j]);
                    assert(prev.contains(x));
                } else {
                    assert(lists.last().contains(x));
                }
            }
        }
    }
}

/// Resolves the user's agent keys from the local agent and, for each hub it
/// is linked to, the agents linked to that hub.
pub fn my_agent_set(local: &AgentPubKey, sibling_lists: &Vec<Vec<AgentPubKey>>) -> (r: Vec<AgentPubKey>)
    ensures
        key_views(r@) == agent_set_of(local.raw@, lists_view(sibling_lists@)),
        key_views(r@)[0] == local.raw@,
        no_repeats(key_views(r@)),
        forall|x: Seq<u8>| #[trigger] key_views(r@).contains(x) <==> (x == local.raw@ || exists|j: int|
            0 <= j < sibling_lists@.len() && key_views((#[trigger] sibling_lists@[j])@).contains(x)),
{
    let mut r: Vec<AgentPubKey> = Vec::new();
    r.push(*local);
    assert(key_views(r@) =~= seq![local.raw@]);
    let ghost lists = lists_view(sibling_lists@);
    let mut i: usize = 0;
    assert(lists.subrange(0, 0) =~= Seq::<Seq<Seq<u8>>>::empty());
    while i < sibling_lists.len()
        invariant
            i <= sibling_lists@.len(),
            lists == lists_view(sibling_lists@),
            key_views(r@) == agent_set_of(local.raw@, lists.subrange(0, i as int)),
        decreases sibling_lists@.len() - i,
    {
        push_new_keys(&mut r, &sibling_lists[i]);
        proof {
            let sub = lists.subrange(0, i + 1);
            assert(sub.drop_last() =~= lists.subrange(0, i as int));
            assert(sub.last() == key_views(sibling_lists@[i as int]@));
        }
        i += 1;
    }
    assert(lists.subrange(0, sibling_lists@.len() as int) =~= lists);
    proof {
        lemma_agent_set(local.raw@, lists);
        assert forall|x: Seq<u8>| #[trigger] key_views(r@).contains(x) <==> (x == local.raw@ || exists|j: int|
            0 <= j < sibling_lists@.len() && key_views((#[trigger] sibling_lists@[j])@).contains(x)) by {
            if exists|j: int| 0 <= j < sibling_lists@.len() && key_views((#[trigger] sibling_lists@[j])@).contains(x) {
                let j = choose|j: int| 0 <= j < sibling_lists@.len() && key_views((#[trigger] sibling_lists@[j])@).contains(x);
                assert(lists[j] == key_views(sibling_lists@[j]@));
            }
            if exists|j: int| 0 <= j < lists.len() && (#[trigger] lists[j]).contains(x) {
                let j = choose|j: int| 0 <= j < lists.len() && (#[trigger] lists[j]).contains(x);
                assert(lists[j] == key_views(sibling_lists@[j]@));
            }
        }
    }
    r
}

/// `a` sorts before or with `b`: strings order lexicographically by their
/// bytes, which for UTF-8 is the order of their characters' code points.
pub open spec fn text_le(a: Seq<char>, b: Seq<char>) -> bool
    decreases a.len(),
{
    if a.len() == 0 {
        true
    } else if b.len() == 0 {
        false
    } else if a[0] != b[0] {
        (a[0] as u32) < (b[0] as u32)
    } else {
        text_le(a.drop_first(), b.drop_first())
    }
}

proof fn lemma_text_le_total(a: Seq<char>, b: Seq<char>)
    ensures
        text_le(a, b) || text_le(b, a),
    decreases a.len(),
{
    if a.len() > 0 && b.len() > 0 {
        if a[0] == b[0] {
            lemma_text_le_total(a.drop_first(), b.drop_first());
        } else {
            vstd::utf8::char_u32_cast(a[0], a[0] as u32);
            vstd::utf8::char_u32_cast(b[0], b[0] as u32);
        }
    }
}

proof fn lemma_text_le_transitive(a: Seq<char>, b: Seq<char>, c: Seq<char>)
    requires
        text_le(a, b),
        text_le(b, c),
    ensures
        text_le(a, c),
    decreases a.len(),
{
    if a.len() > 0 && b.len() > 0 && c.len() > 0 && a[0] == b[0] && b[0] == c[0] {
        lemma_text_le_transitive(a.drop_first(), b.drop_first(), c.drop_first());
    }
}

/// Whether `a` sorts before or with `b`, comparing character by character.
fn str_le(a: &str, b: &str) -> (r: bool)
    ensures
        r == text_le(a@, b@),
{
    let na = a.unicode_len();
    let nb = b.unicode_len();
    let mut i: usize = 0;
    assert(a@.skip(0) =~= a@);
    assert(b@.skip(0) =~= b@);
    while i < na && i < nb
        invariant
            na == a@.len(),
            nb == b@.len(),
            i <= na,
            i <= nb,
            text_le(a@, b@) == text_le(a@.skip(i as int), b@.skip(i as int)),
        decreases na - i,
    {
        let ca = a.get_char(i);
        let cb = b.get_char(i);
        assert(a@.skip(i as int)[0] == ca && b@.skip(i as int)[0] == cb);
        if ca != cb {
            return (ca as u32) < (cb as u32);
        }
        assert(a@.skip(i as int).drop_first() =~= a@.skip(i + 1));
        assert(b@.skip(i as int).drop_first() =~= b@.skip(i + 1));
        i += 1;
    }
    i == na
}

/// Sorts strings into ascending order by insertion: the result holds the
/// same strings, ordered as `slice::sort` orders them.
fn sort_strings(v: &mut Vec<String>)
    ensures
        final(v)@.to_multiset() == old(v)@.to_multiset(),
        forall|i: int, j: int|
            0 <= i < j < final(v)@.len() ==> text_le(final(v)@[i]@, final(v)@[j]@),
{
    broadcast use vstd::seq_lib::group_to_multiset_ensures;

    let ghost input = v@;
    let mut rest: Vec<String> = Vec::new();
    std::mem::swap(&mut rest, v);
    let mut out: Vec<String> = Vec::new();
    while rest.len() > 0
        invariant
            out@.to_multiset().add(rest@.to_multiset()) == input.to_multiset(),
            forall|p: int, q: int| 0 <= p < q < out@.len() ==> text_le(out@[p]@, out@[q]@),
        decreases rest@.len(),
    {
        let ghost before_rest = rest@;
        let s = rest.pop().unwrap();
        proof {
            assert(before_rest =~= rest@.push(s));
        }
        let mut pos: usize = 0;
        while pos < out.len() && str_le(out[pos].as_str(), s.as_str())
            invariant
                pos <= out@.len(),
                forall|k: int| 0 <= k < pos ==> text_le(out@[k]@, s@),
            decreases out@.len() - pos,
        {
            pos += 1;
        }
        let ghost before_out = out@;
        let ghost rest_now = rest@;
        out.insert(pos, s);
        proof {
            let after = out@;
            vstd::seq_lib::to_multiset_insert(before_out, pos as int, s);
            assert(before_rest == rest_now.push(s));
            vstd::seq_lib::to_multiset_build(rest_now, s);
            assert(before_rest.to_multiset() == rest_now.to_multiset().insert(s));
            assert(after.to_multiset().add(rest_now.to_multiset()) =~= before_out.to_multiset().add(
                before_rest.to_multiset(),
            ));
            assert(after == before_out.insert(pos as int, s));
            if pos < before_out.len() {
                assert(!text_le(before_out[pos as int]@, s@));
                lemma_text_le_total(before_out[pos as int]@, s@);
            }
            assert forall|p: int, q: int| 0 <= p < q < after.len() implies text_le(after[p]@, after[q]@) by {
                if q < pos {
                    assert(after[p] == before_out[p] && after[q] == before_out[q]);
                } else if q == pos {
                    assert(after[p] == before_out[p]);
                } else if p == pos {
                    assert(after[q] == before_out[q - 1]);
                    if q - 1 > pos {
                        lemma_text_le_transitive(s@, before_out[pos as int]@, before_out[q - 1]@);
                    }
                } else if p < pos {
                    assert(after[p] == before_out[p] && after[q] == before_out[q - 1]);
                } else {
                    assert(after[p] == before_out[p - 1] && after[q] == before_out[q - 1]);
                }
            }
        }
    }
    assert(rest@ =~= Seq::<String>::empty());
    *v = out;
}

/// The text form of every key of the user's set, sorted (so that a change
/// of order is not taken for a change of set). When the local agent's key
/// did not parse, the local agent's text alone, or nothing.
#[verifier::rlimit(40)]
#[verifier::spinoff_prover]
pub fn get_my_agent_set(
    local_agent: Option<String>,
    local: Option<AgentPubKey>,
    sibling_lists: &Vec<Vec<AgentPubKey>>,
) -> (r: Vec<String>)
    ensures
        local is None ==> r@ == (match local_agent {
            Some(s) => seq![s],
            None => Seq::<String>::empty(),
        }),
        local matches Some(k) ==> {
            let set = agent_set_of(k.raw@, lists_view(sibling_lists@));
            &&& r@.len() == set.len()
            &&& forall|i: int, j: int| 0 <= i < j < r@.len() ==> text_le(r@[i]@, r@[j]@)
            &&& forall|i: int, j: int| 0 <= i < j < r@.len() ==> r@[i]@ != r@[j]@
            &&& forall|i: int| 0 <= i < r@.len() ==> exists|m: int| 0 <= m < set.len() && (#[trigger] r@[i])@ == key_text(#[trigger] set[m])
            &&& forall|m: int| 0 <= m < set.len() ==> exists|i: int| 0 <= i < r@.len() && (#[trigger] r@[i])@ == key_text(#[trigger] set[m])
        },
{
    match local {
        None => match local_agent {
            Some(s) => {
                let mut v: Vec<String> = Vec::new();
                v.push(s);
                assert(v@ =~= seq![s]);
                v
            },
            None => Vec::new(),
        },
        Some(k) => {
            let keys = my_agent_set(&k, sibling_lists);
            let ghost set = key_views(keys@);
            let mut texts: Vec<String> = Vec::new();
            let mut i: usize = 0;
            while i < keys.len()
                invariant
                    i <= keys@.len(),
                    set == key_views(keys@),
                    texts@.len() == i,
                    forall|m: int| 0 <= m < i ==> (#[trigger] texts@[m])@ == key_text(set[m]),
                    forall|m: int, raw: Seq<u8>|
                        0 <= m < i && #[trigger] key_text(raw) == (#[trigger] texts@[m])@ ==> raw == set[m],
                decreases keys@.len() - i,
            {
                let t = agent_key_string(&keys[i]);
                texts.push(t);
                i += 1;
            }
            let ghost before = texts@;
            sort_strings(&mut texts);
            proof {
                broadcast use vstd::seq_lib::group_to_multiset_ensures;
                assert(no_repeats(set));
                assert(before.no_duplicates()) by {
                    assert forall|a: int, b: int|
                        0 <= a < before.len() && 0 <= b < before.len() && a != b implies before[a]
                        != before[b] by {
                        if before[a] == before[b] {
                            assert(key_text(set[b]) == before[a]@);
                            assert(set[b] == set[a]);
                            if a < b {
                                assert(set[a] != set[b]);
                            } else {
                                assert(set[b] != set[a]);
                            }
                        }
                    }
                }
                before.lemma_multiset_has_no_duplicates();
                assert(texts@.to_multiset() == before.to_multiset());
                texts@.lemma_multiset_has_no_duplicates_conv();
                assert(texts@.len() == before.len()) by {
                    assert(texts@.to_multiset().len() == before.to_multiset().len());
                }
                assert forall|i: int| 0 <= i < texts@.len() implies exists|m: int|
                    0 <= m < set.len() && (#[trigger] texts@[i])@ == key_text(#[trigger] set[m]) by {
                    assert(texts@.contains(texts@[i]));
                    assert(texts@.to_multiset().count(texts@[i]) > 0);
                    assert(before.contains(texts@[i]));
                    let m = choose|m: int| 0 <= m < before.len() && before[m] == texts@[i];
                    assert(before[m]@ == key_text(set[m]));
                }
                assert forall|m: int| 0 <= m < set.len() implies exists|i: int|
                    0 <= i < texts@.len() && (#[trigger] texts@[i])@ == key_text(#[trigger] set[m]) by {
                    assert(before.contains(before[m]));
                    assert(before.to_multiset().count(before[m]) > 0);
                    assert(texts@.contains(before[m]));
                    let i = choose|i: int| 0 <= i < texts@.len() && texts@[i] == before[m];
                }
                assert forall|i: int, j: int| 0 <= i < j < texts@.len() implies texts@[i]@
                    != texts@[j]@ by {
                    assert(texts@.contains(texts@[i]));
                    assert(texts@.to_multiset().count(texts@[i]) > 0);
                    assert(before.contains(texts@[i]));
                    let a = choose|a: int| 0 <= a < before.len() && before[a] == texts@[i];
                    assert(texts@.contains(texts@[j]));
                    assert(texts@.to_multiset().count(texts@[j]) > 0);
                    assert(before.contains(texts@[j]));
                    let b = choose|b: int| 0 <= b < before.len() && before[b] == texts@[j];
                    if texts@[i]@ == texts@[j]@ {
                        assert(key_text(set[b]) == before[a]@);
                        assert(set[b] == set[a]);
                        if a < b {
                            assert(set[a] != set[b]);
                        } else if b < a {
                            assert(set[b] != set[a]);
                        }
                        assert(texts@[i] != texts@[j]);
                    }
                }
            }
            texts
        },
    }
}

/// The entry types a data export can show in readable form.
#[derive(Clone, Copy, PartialEq, Eq, Structural, Debug)]
pub enum ExportKind {
    Item,
    Response,
    Finding,
}

/// How to render an exported entry: decode its bytes as one of the known
/// entry types, or say the type is unknown and give the bytes in hex.
pub enum ExportPlan {
    Decode { kind: ExportKind, bytes: Vec<u8> },
    Unknown { warning: String, raw_bytes_hex: String },
}

/// The known entry type a name stands for.
pub open spec fn export_kind_of(entry_type: Seq<char>) -> Option<ExportKind> {
    if entry_type == "Item"@ {
        Some(ExportKind::Item)
    } else if entry_type == "Response"@ {
        Some(ExportKind::Response)
    } else if entry_type == "Finding"@ {
        Some(ExportKind::Finding)
    } else {
        None
    }
}

/// Plans the readable view of an exported entry, given its type's name and
/// its bytes in standard base64.
pub fn decode_record_for_export(entry_type: &str, entry_bytes_b64: &str) -> (r: Result<ExportPlan, String>)
    ensures
        match standard_decoded(entry_bytes_b64@) {
            Err(d) => r matches Err(e) && e@ == "base64 decode: "@ + d.0,
            Ok(bytes) => match export_kind_of(entry_type@) {
                Some(kind) => r matches Ok(ExportPlan::Decode { kind: k, bytes: b }) && k == kind && b@
                    == bytes,
                None => r matches Ok(ExportPlan::Unknown { warning, raw_bytes_hex }) && warning@
                    == "Unknown entry type: "@ + entry_type@ && raw_bytes_hex@ == hex_lower(bytes),
            },
        },
        forall|b: Seq<u8>|
            #[trigger] standard_encoded(b) == entry_bytes_b64@ && export_kind_of(entry_type@) is Some
                ==> (r matches Ok(ExportPlan::Decode { kind: k, bytes: d }) && k == export_kind_of(
                entry_type@,
            )->0 && d@ == b),
{
    let bytes = match decode_standard(entry_bytes_b64) {
        Ok(b) => b,
        Err(f) => return Err(concat2("base64 decode: ", f.display.as_str())),
    };
    if str_eq(entry_type, "Item") {
        Ok(ExportPlan::Decode { kind: ExportKind::Item, bytes })
    } else if str_eq(entry_type, "Response") {
        Ok(ExportPlan::Decode { kind: ExportKind::Response, bytes })
    } else if str_eq(entry_type, "Finding") {
        Ok(ExportPlan::Decode { kind: ExportKind::Finding, bytes })
    } else {
        let hex = hex_encode(bytes.as_slice());
        Ok(ExportPlan::Unknown { warning: concat2("Unknown entry type: ", entry_type), raw_bytes_hex: hex })
    }
}

/// Each exported entry type name stands for the entry kind of the same
/// name, and no other name stands for a known kind.
pub proof fn law_export_kind_is_named_kind(entry_type: Seq<char>)
    ensures
        export_kind_of(entry_type) == Some(ExportKind::Item) <==> entry_type == "Item"@,
        export_kind_of(entry_type) == Some(ExportKind::Response) <==> entry_type == "Response"@,
        export_kind_of(entry_type) == Some(ExportKind::Finding) <==> entry_type == "Finding"@,
        export_kind_of(entry_type) is None <==> (entry_type != "Item"@ && entry_type != "Response"@
            && entry_type != "Finding"@),
{
    reveal_strlit("Item");
    reveal_strlit("Response");
    reveal_strlit("Finding");
    assert("Item"@.len() != "Response"@.len());
    assert("Item"@.len() != "Finding"@.len());
    assert("Response"@[0] != "Finding"@[0]);
}

/// The kind of a source-chain action.
#[derive(Clone, Copy, PartialEq, Eq, Structural, Debug)]
pub enum ActionKind {
    Dna,
    AgentValidationPkg,
    InitZomesComplete,
    CreateLink,
    DeleteLink,
    OpenChain,
    CloseChain,
    Create,
    Update,
    Delete,
}

/// The label of an action kind.
pub open spec fn action_label(action: ActionKind) -> Seq<char> {
    match action {
        ActionKind::Dna => "Dna"@,
        ActionKind::AgentValidationPkg => "AgentValidationPkg"@,
        ActionKind::InitZomesComplete => "InitZomesComplete"@,
        ActionKind::CreateLink => "CreateLink"@,
        ActionKind::DeleteLink => "DeleteLink"@,
        ActionKind::OpenChain => "OpenChain"@,
        ActionKind::CloseChain => "CloseChain"@,
        ActionKind::Create => "Create"@,
        ActionKind::Update => "Update"@,
        ActionKind::Delete => "Delete"@,
    }
}

/// Labels an action that carries no entry, for the backup's diagnostics.
pub fn action_variant_label(action: ActionKind) -> (r: String)
    ensures
        r@ == action_label(action),
{
    match action {
        ActionKind::Dna => owned("Dna"),
        ActionKind::AgentValidationPkg => owned("AgentValidationPkg"),
        ActionKind::InitZomesComplete => owned("InitZomesComplete"),
        ActionKind::CreateLink => owned("CreateLink"),
        ActionKind::DeleteLink => owned("DeleteLink"),
        ActionKind::OpenChain => owned("OpenChain"),
        ActionKind::CloseChain => owned("CloseChain"),
        ActionKind::Create => owned("Create"),
        ActionKind::Update => owned("Update"),
        ActionKind::Delete => owned("Delete"),
    }
}

/// The type of the entry an action writes.
#[derive(Clone, Copy, PartialEq, Eq, Structural, Debug)]
pub enum DumpEntryType {
    AgentPubKey,
    CapClaim,
    CapGrant,
    /// An app entry, by the index of its integrity zome in the DNA and its
    /// index in that zome's entry types.
    App { zome_index: u8, entry_index: u8 },
}

/// The readable view a dumped record gets: none (chain plumbing or an
/// authority record), or a decoding of its bytes as a known entry type.
#[derive(Clone, Copy, PartialEq, Eq, Structural, Debug)]
pub enum HumanView {
    NoView,
    Decode(ExportKind),
}

/// The backup's name for a dumped record and the readable view it gets.
/// The app entry table follows the DNA: integrity zome 0 is agent linking
/// (entry 0 the same-person link), zome 1 the polls (entries: grant, item,
/// response, finding).
pub open spec fn dump_class(entry_type: Option<DumpEntryType>, action: ActionKind) -> (
    Seq<char>,
    HumanView,
) {
    match entry_type {
        None => (action_label(action), HumanView::NoView),
        Some(DumpEntryType::AgentPubKey) => ("AgentPubKey"@, HumanView::NoView),
        Some(DumpEntryType::CapClaim) => ("CapClaim"@, HumanView::NoView),
        Some(DumpEntryType::CapGrant) => ("CapGrant"@, HumanView::NoView),
        Some(DumpEntryType::App { zome_index, entry_index }) => if zome_index == 1 && entry_index
            == 0 {
            ("AdminGrant"@, HumanView::NoView)
        } else if zome_index == 1 && entry_index == 1 {
            ("Item"@, HumanView::Decode(ExportKind::Item))
        } else if zome_index == 1 && entry_index == 2 {
            ("Response"@, HumanView::Decode(ExportKind::Response))
        } else if zome_index == 1 && entry_index == 3 {
            ("Finding"@, HumanView::Decode(ExportKind::Finding))
        } else if zome_index == 0 && entry_index == 0 {
            ("IsSamePerson"@, HumanView::NoView)
        } else {
            (
                "AppEntry(zome="@ + crate::text::decimal(zome_index as nat) + ",entry="@
                    + crate::text::decimal(entry_index as nat) + ")"@,
                HumanView::NoView,
            )
        },
    }
}

/// Classifies a dumped source-chain record for the backup, given the type
/// of the entry its action writes (none for an action without an entry).
pub fn classify_dump_record(entry_type: Option<DumpEntryType>, action: ActionKind) -> (r: (
    String,
    HumanView,
))
    ensures
        (r.0@, r.1) == dump_class(entry_type, action),
{
    match entry_type {
        None => (action_variant_label(action), HumanView::NoView),
        Some(DumpEntryType::AgentPubKey) => (owned("AgentPubKey"), HumanView::NoView),
        Some(DumpEntryType::CapClaim) => (owned("CapClaim"), HumanView::NoView),
        Some(DumpEntryType::CapGrant) => (owned("CapGrant"), HumanView::NoView),
        Some(DumpEntryType::App { zome_index, entry_index }) => {
            if zome_index == 1 && entry_index == 0 {
                (owned("AdminGrant"), HumanView::NoView)
            } else if zome_index == 1 && entry_index == 1 {
                (owned("Item"), HumanView::Decode(ExportKind::Item))
            } else if zome_index == 1 && entry_index == 2 {
                (owned("Response"), HumanView::Decode(ExportKind::Response))
            } else if zome_index == 1 && entry_index == 3 {
                (owned("Finding"), HumanView::Decode(ExportKind::Finding))
            } else if zome_index == 0 && entry_index == 0 {
                (owned("IsSamePerson"), HumanView::NoView)
            } else {
                let z = crate::text::decimal_string(zome_index as u64);
                let e = crate::text::decimal_string(entry_index as u64);
                let mut name = concat2("AppEntry(zome=", z.as_str());
                name.append(",entry=");
                name.append(e.as_str());
                name.append(")");
                (name, HumanView::NoView)
            }
        },
    }
}

/// A backed-up record gets a readable view exactly when it is one of the
/// polls zome's items, verdicts or findings, and the view decodes it as the
/// kind its name says: the name it is filed under is the name the export
/// decodes by.
pub proof fn law_readable_records_decode_by_their_name(entry_type: Option<DumpEntryType>, action: ActionKind)
    ensures
        dump_class(entry_type, action).1 matches HumanView::Decode(k) ==> export_kind_of(
            dump_class(entry_type, action).0,
        ) == Some(k),
        (dump_class(entry_type, action).1 is Decode) <==> (entry_type matches Some(
            DumpEntryType::App { zome_index, entry_index },
        ) && zome_index == 1 && 1 <= entry_index <= 3),
{
    reveal_strlit("Item");
    reveal_strlit("Response");
    reveal_strlit("Finding");
    assert("Item"@.len() != "Response"@.len());
    assert("Item"@.len() != "Finding"@.len());
    assert("Response"@[0] != "Finding"@[0]);
}

/// A dumped record as the backup summary counts it: its type's name, and
/// whether it got a readable view (only those count as user data).
pub struct DumpedRecord {
    pub entry_type: String,
    pub readable: bool,
}

/// How many readable records of type `name` there are.
pub open spec fn readable_count(records: Seq<DumpedRecord>, name: Seq<char>) -> nat
    decreases records.len(),
{
    if records.len() == 0 {
        0
    } else {
        readable_count(records.drop_last(), name) + (if records.last().readable
            && records.last().entry_type@ == name {
            1nat
        } else {
            0nat
        })
    }
}

/// How many readable records there are.
pub open spec fn readable_total(records: Seq<DumpedRecord>) -> nat
    decreases records.len(),
{
    if records.len() == 0 {
        0
    } else {
        readable_total(records.drop_last()) + (if records.last().readable {
            1nat
        } else {
            0nat
        })
    }
}

proof fn lemma_readable_count_witness(records: Seq<DumpedRecord>, name: Seq<char>)
    ensures
        readable_count(records, name) > 0 ==> exists|i: int|
            0 <= i < records.len() && (#[trigger] records[i]).readable && records[i].entry_type@
                == name,
    decreases records.len(),
{
    if records.len() > 0 {
        lemma_readable_count_witness(records.drop_last(), name);
        if readable_count(records.drop_last(), name) > 0 {
            let i = choose|i: int|
                0 <= i < records.drop_last().len() && (#[trigger] records.drop_last()[i]).readable
                    && records.drop_last()[i].entry_type@ == name;
            assert(records[i] == records.drop_last()[i]);
        } else if readable_count(records, name) > 0 {
            assert(records[records.len() - 1] == records.last());
        }
    }
}

/// The count of one entry type in the backup summary.
pub struct TypeCount {
    pub entry_type: String,
    pub count: usize,
}

/// The backup summary's counts: one per type name that has readable records,
/// in order of first appearance, and the number of readable records.
pub open spec fn summary_matches(records: Seq<DumpedRecord>, counts: Seq<TypeCount>) -> bool {
    &&& forall|k: int|
        0 <= k < counts.len() ==> (#[trigger] counts[k]).count as nat == readable_count(
            records,
            counts[k].entry_type@,
        ) && counts[k].count > 0
    &&& forall|k: int, l: int|
        0 <= k < l < counts.len() ==> (#[trigger] counts[k]).entry_type@ != (#[trigger] counts[l]).entry_type@
    &&& forall|i: int|
        0 <= i < records.len() && (#[trigger] records[i]).readable ==> exists|k: int|
            0 <= k < counts.len() && (#[trigger] counts[k]).entry_type@ == records[i].entry_type@
}

/// Where type `name` stands among the counts, if it does.
fn find_count(counts: &Vec<TypeCount>, name: &str) -> (r: Option<usize>)
    ensures
        match r {
            Some(k) => k < counts@.len() && counts@[k as int].entry_type@ == name@,
            None => forall|k: int| 0 <= k < counts@.len() ==> (#[trigger] counts@[k]).entry_type@ != name@,
        },
{
    let mut k: usize = 0;
    while k < counts.len()
        invariant
            k <= counts@.len(),
            forall|j: int| 0 <= j < k ==> (#[trigger] counts@[j]).entry_type@ != name@,
        decreases counts@.len() - k,
    {
        if str_eq(counts[k].entry_type.as_str(), name) {
            return Some(k);
        }
        k += 1;
    }
    None
}

/// Counts the readable records of a backup by type, for its summary.
pub fn tally_entry_types(records: &Vec<DumpedRecord>) -> (r: (Vec<TypeCount>, usize))
    ensures
        summary_matches(records@, r.0@),
        r.1 as nat == readable_total(records@),
{
    let mut counts: Vec<TypeCount> = Vec::new();
    let mut total: usize = 0;
    let mut i: usize = 0;
    assert(records@.subrange(0, 0) =~= Seq::<DumpedRecord>::empty());
    while i < records.len()
        invariant
            i <= records@.len(),
            summary_matches(records@.subrange(0, i as int), counts@),
            total as nat == readable_total(records@.subrange(0, i as int)),
            total <= i,
            forall|k: int| 0 <= k < counts@.len() ==> (#[trigger] counts@[k]).count <= i,
        decreases records@.len() - i,
    {
        let ghost pre = records@.subrange(0, i as int);
        let ghost post = records@.subrange(0, i + 1);
        let ghost before = counts@;
        let rec = &records[i];
        let ghost mut slot: int = 0;
        proof {
            assert(post.drop_last() =~= pre);
            assert(post.last() == *rec);
        }
        if rec.readable {
            total += 1;
            match find_count(&counts, rec.entry_type.as_str()) {
                Some(k) => {
                    let bumped = TypeCount {
                        entry_type: counts[k].entry_type.clone(),
                        count: counts[k].count + 1,
                    };
                    counts.set(k, bumped);
                    proof {
                        slot = k as int;
                    }
                },
                None => {
                    proof {
                        lemma_readable_count_witness(pre, rec.entry_type@);
                        if readable_count(pre, rec.entry_type@) > 0 {
                            let j = choose|j: int|
                                0 <= j < pre.len() && (#[trigger] pre[j]).readable && pre[j].entry_type@
                                    == rec.entry_type@;
                            let k = choose|k: int| 0 <= k < before.len() && (#[trigger] before[k]).entry_type@ == pre[j].entry_type@;
                        }
                    }
                    counts.push(TypeCount { entry_type: rec.entry_type.clone(), count: 1 });
                    proof {
                        slot = before.len() as int;
                    }
                },
            }
        }
        proof {
            assert forall|k: int|
                0 <= k < counts@.len() implies (#[trigger] counts@[k]).count as nat == readable_count(
                post,
                counts@[k].entry_type@,
            ) && counts@[k].count > 0 by {
                if k < before.len() {
                    assert(readable_count(pre, before[k].entry_type@) == before[k].count as nat);
                }
            }
            assert forall|a: int|
                0 <= a < post.len() && (#[trigger] post[a]).readable implies exists|k: int|
                0 <= k < counts@.len() && (#[trigger] counts@[k]).entry_type@ == post[a].entry_type@ by {
                if a < pre.len() {
                    assert(pre[a] == post[a]);
                    let k = choose|k: int| 0 <= k < before.len() && (#[trigger] before[k]).entry_type@ == pre[a].entry_type@;
                    assert(counts@[k].entry_type@ == before[k].entry_type@);
                } else {
                    assert(post[a] == *rec);
                    assert(counts@[slot].entry_type@ == rec.entry_type@);
                }
            }
        }
        i += 1;
    }
    assert(records@.subrange(0, records@.len() as int) =~= records@);
    (counts, total)
}

/// The bytes of `v` as an array of `N`, when it has exactly that many.
pub fn exact_array<const N: usize>(v: &Vec<u8>) -> (r: Option<[u8; N]>)
    ensures
        match r {
            Some(a) => v@.len() == N && a@ == v@,
            None => v@.len() != N,
        },
{
    if v.len() != N {
        return None;
    }
    let a: [u8; N] = crate::agent_key::array_from(v.as_slice(), 0);
    assert(v@.subrange(0, N as int) =~= v@);
    Some(a)
}

/// Whether the local agent wrote a record, so that it may decrypt it.
pub fn is_own_record(my_agent: &Option<String>, author: &str) -> (r: bool)
    ensures
        r == (my_agent matches Some(me) && me@ == author@),
{
    match my_agent {
        Some(me) => str_eq(me.as_str(), author),
        None => false,
    }
}

/// A decrypted draft's fields as the JSON holds them: each text field when
/// it is text, the options when they are an array (each when it is text),
/// the closing time when it is an integer.
pub struct DraftFields {
    pub title: Option<String>,
    pub description: Option<String>,
    pub options: Option<Vec<Option<String>>>,
    pub closes_at: Option<i64>,
    pub poll_type: Option<String>,
}

/// A text field, or the empty text when it is missing.
pub open spec fn text_or(field: Option<String>, default: Seq<char>) -> Seq<char> {
    match field {
        Some(s) => s@,
        None => default,
    }
}

/// The text entries of an options array, in order; no options when the
/// array is missing.
pub open spec fn option_texts(options: Option<Seq<Option<String>>>) -> Seq<Seq<char>>
    decreases (match options {
        Some(o) => o.len(),
        None => 0,
    }),
{
    match options {
        None => seq![],
        Some(o) => if o.len() == 0 {
            seq![]
        } else {
            let prev = option_texts(Some(o.drop_last()));
            match o.last() {
                Some(s) => prev.push(s@),
                None => prev,
            }
        },
    }
}

/// The plain-value form of the options array.
pub open spec fn options_view(options: Option<Vec<Option<String>>>) -> Option<Seq<Option<String>>> {
    match options {
        Some(v) => Some(v@),
        None => None,
    }
}

/// The text of each string.
pub open spec fn texts(v: Seq<String>) -> Seq<Seq<char>> {
    v.map_values(|s: String| s@)
}

/// Keeps the text entries of an options array.
fn keep_texts(options: Option<Vec<Option<String>>>) -> (r: Vec<String>)
    ensures
        texts(r@) == option_texts(options_view(options)),
{
    match options {
        None => {
            let r: Vec<String> = Vec::new();
            assert(texts(r@) =~= Seq::<Seq<char>>::empty());
            r
        },
        Some(v) => {
            let mut r: Vec<String> = Vec::new();
            let mut i: usize = 0;
            assert(texts(r@) =~= Seq::<Seq<char>>::empty());
            assert(v@.subrange(0, 0) =~= Seq::<Option<String>>::empty());
            while i < v.len()
                invariant
                    i <= v@.len(),
                    texts(r@) == option_texts(Some(v@.subrange(0, i as int))),
                decreases v@.len() - i,
            {
                let ghost before = r@;
                match &v[i] {
                    Some(s) => {
                        r.push(s.clone());
                        assert(texts(r@) =~= texts(before).push(s@));
                    },
                    None => {},
                }
                proof {
                    let sub = v@.subrange(0, i + 1);
                    assert(sub.drop_last() =~= v@.subrange(0, i as int));
                    assert(sub.last() == v@[i as int]);
                }
                i += 1;
            }
            assert(v@.subrange(0, v@.len() as int) =~= v@);
            r
        },
    }
}

/// A draft as the frontend sees it: missing text fields read as empty, a
/// missing type as `Anonymous`.
pub fn draft_item(hash: String, fields: DraftFields, created_at: i64) -> (r: DraftPollItem)
    ensures
        r.hash == hash,
        r.title@ == text_or(fields.title, seq![]),
        r.description@ == text_or(fields.description, seq![]),
        texts(r.options@) == option_texts(options_view(fields.options)),
        r.closes_at == fields.closes_at,
        r.poll_type@ == text_or(fields.poll_type, "Anonymous"@),
        r.created_at == created_at,
{
    let title = match fields.title {
        Some(t) => t,
        None => String::new(),
    };
    let description = match fields.description {
        Some(d) => d,
        None => String::new(),
    };
    let poll_type = match fields.poll_type {
        Some(p) => p,
        None => owned("Anonymous"),
    };
    DraftPollItem {
        hash,
        title,
        description,
        options: keep_texts(fields.options),
        closes_at: fields.closes_at,
        poll_type,
        created_at,
    }
}

/// The poll a published draft becomes, with the same defaults as
/// [`draft_item`].
pub fn draft_poll_input(fields: DraftFields) -> (r: CreatePollInput)
    ensures
        r.title@ == text_or(fields.title, seq![]),
        r.description@ == text_or(fields.description, seq![]),
        texts(r.options@) == option_texts(options_view(fields.options)),
        r.closes_at == fields.closes_at,
        r.poll_type matches Some(p) && p@ == text_or(fields.poll_type, "Anonymous"@),
{
    let title = match fields.title {
        Some(t) => t,
        None => String::new(),
    };
    let description = match fields.description {
        Some(d) => d,
        None => String::new(),
    };
    let poll_type = match fields.poll_type {
        Some(p) => p,
        None => owned("Anonymous"),
    };
    CreatePollInput {
        title,
        description,
        options: keep_texts(fields.options),
        closes_at: fields.closes_at,
        poll_type: Some(poll_type),
    }
}

/// The type a saved draft records: the one chosen, else `Anonymous`.
pub fn draft_poll_type(poll_type: Option<String>) -> (r: String)
    ensures
        r@ == text_or(poll_type, "Anonymous"@),
{
    match poll_type {
        Some(p) => p,
        None => owned("Anonymous"),
    }
}

} // verus!
