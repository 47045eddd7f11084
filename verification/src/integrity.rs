//! The integrity rules of the Fieldnotes DNA: its entry and link types, the
//! administrator gate and the other validation decisions.
//!
//! Validation in the DNA runs inside the Holochain host, which answers
//! four questions on demand: the DNA properties, the hash of the items
//! anchor, a record fetched by action hash, and whether a raw signature
//! verifies. Here validation is a short dialogue: [`validate`] either decides
//! at once or names the one question it needs answered, and a continuation
//! function decides from the host's answer.

use vstd::prelude::*;

use crate::agent_key::{bytes_equal, parse_raw39, raw39_parse, AgentPubKey};
use crate::text::{is_blank, owned, str_is_blank};

verus! {

/// The 39 raw bytes of an action hash.
#[derive(Clone, Copy, Debug)]
pub struct ActionHash {
    pub raw: [u8; 39],
}

/// The 39 raw bytes of an entry hash.
#[derive(Clone, Copy, Debug)]
pub struct EntryHash {
    pub raw: [u8; 39],
}

/// A hash a link can start from, by the kind of hash it is.
pub enum AnyLinkableHash {
    Action(ActionHash),
    Entry(EntryHash),
    External([u8; 39]),
}

/// A 64-byte Ed25519 signature.
#[derive(Clone, Copy, Debug)]
pub struct Signature {
    pub bytes: [u8; 64],
}

/// DNA-level configuration burned in when a network is created: the
/// progenitor's agent key in its `u`-multibase text form, or none in
/// development.
pub struct DnaProperties {
    pub progenitor_pubkey: Option<String>,
}

impl Default for DnaProperties {
    fn default() -> (r: Self)
        ensures
            r.progenitor_pubkey is None,
    {
        DnaProperties { progenitor_pubkey: None }
    }
}

/// A grant, signed by the progenitor, that lets an agent create scenarios.
pub struct AdminGrant {
    pub admin_pubkey: AgentPubKey,
    pub progenitor_signature: Signature,
    pub created_at: i64,
}

/// A directed test scenario (seeded by an administrator) or an emergent
/// feedback post raised by any member.
#[derive(Clone, Copy, PartialEq, Eq, Structural, Debug)]
pub enum ItemKind {
    Scenario,
    Feedback,
}

/// A tester's verdict on a scenario.
#[derive(Clone, Copy, PartialEq, Eq, Structural, Debug)]
pub enum Verdict {
    Pass,
    Fail,
    Partial,
    Skip,
}

/// A unit of testing or feedback.
pub struct Item {
    pub kind: ItemKind,
    /// For a scenario, the action hash of the grant that authorised it.
    pub admin_grant_action_hash: Option<ActionHash>,
    pub campaign: String,
    pub section: String,
    pub title: String,
    pub instructions: String,
    pub look_for: String,
    pub order: u32,
    pub created_at: i64,
    pub is_archived: bool,
}

/// A tester's verdict on an item; one per agent per item.
pub struct Response {
    pub item_action_hash: ActionHash,
    pub verdict: Verdict,
    pub created_at: i64,
}

/// A free-text observation on an item; many per agent, append-only.
pub struct Finding {
    pub item_action_hash: ActionHash,
    pub text: String,
    pub created_at: i64,
}

/// One recipient's copy of an attachment's content key, wrapped to them.
pub struct RecipientWrappedKey {
    pub recipient_ed25519: Vec<u8>,
    pub nonce: Vec<u8>,
    pub wrapped_key: Vec<u8>,
}

/// A cohort-encrypted attachment on a finding: the image sealed once, and
/// its content key wrapped to each recipient.
pub struct EncryptedAttachment {
    pub image_ciphertext: Vec<u8>,
    pub bulk_nonce: Vec<u8>,
    pub per_recipient: Vec<RecipientWrappedKey>,
    pub sender_ed25519: Vec<u8>,
    pub media_hint: String,
    pub created_at: i64,
}

/// The entry types of the DNA.
pub enum EntryTypes {
    AdminGrant(AdminGrant),
    Item(Item),
    Response(Response),
    Finding(Finding),
    EncryptedAttachment(EncryptedAttachment),
}

/// The link types of the DNA.
#[derive(Clone, Copy, PartialEq, Eq, Structural, Debug)]
pub enum LinkTypes {
    AllItems,
    ItemToResponses,
    ItemToFindings,
    AdminToGrant,
    AllAdmins,
    FindingToAttachment,
}

/// The anchor entry whose hash is the base of every `AllItems` link.
pub fn all_items_anchor() -> (r: Item)
    ensures
        r.kind == ItemKind::Scenario,
        r.admin_grant_action_hash is None,
        r.campaign@.len() == 0,
        r.section@.len() == 0,
        r.title@ == "ALL_ITEMS_ANCHOR"@,
        r.instructions@.len() == 0,
        r.look_for@.len() == 0,
        r.order == 0,
        r.created_at == 0,
        !r.is_archived,
{
    Item {
        kind: ItemKind::Scenario,
        admin_grant_action_hash: None,
        campaign: String::new(),
        section: String::new(),
        title: owned("ALL_ITEMS_ANCHOR"),
        instructions: String::new(),
        look_for: String::new(),
        order: 0,
        created_at: 0,
        is_archived: false,
    }
}

/// The verdict of a validation callback.
pub enum ValidateCallbackResult {
    Valid,
    Invalid(String),
}

impl View for ValidateCallbackResult {
    /// The rejection message, or none when the operation is valid.
    type V = Option<Seq<char>>;

    open spec fn view(&self) -> Option<Seq<char>> {
        match self {
            ValidateCallbackResult::Valid => None,
            ValidateCallbackResult::Invalid(m) => Some(m@),
        }
    }
}

/// A stored entry, with the author of the action that stores it.
pub enum OpEntry {
    CreateEntry { app_entry: EntryTypes, author: AgentPubKey },
    UpdateEntry { app_entry: EntryTypes, author: AgentPubKey },
    Other,
}

/// A DHT operation to validate, flattened to what validation reads.
pub enum Op {
    StoreEntry(OpEntry),
    RegisterCreateLink { link_type: LinkTypes, base_address: AnyLinkableHash, author: AgentPubKey },
    RegisterDeleteLink,
    Other,
}

/// A question validation needs the host to answer before it can decide.
pub enum HostQuery {
    /// Hash `all_items_anchor()`; then decide with
    /// [`validate_items_anchor_link`].
    ItemsAnchor { base_address: AnyLinkableHash },
    /// Fetch the finding's valid record; then decide with
    /// [`validate_attachment_link`] on its author.
    FindingAuthor { finding: ActionHash, link_author: AgentPubKey },
    /// Read the DNA properties; then decide with [`validate_admin_grant`].
    DnaProperties { grant: AdminGrant },
    /// Fetch the referenced grant's valid record; then decide with
    /// [`item_grant_verdict`].
    GrantRecord { grant: ActionHash, author: AgentPubKey },
}

/// Either a decision (or an error) or the question still open.
pub enum Validation {
    Done(Result<ValidateCallbackResult, String>),
    Needs(HostQuery),
}

/// `r` is the decision `Valid`.
pub open spec fn done_valid(r: Validation) -> bool {
    r matches Validation::Done(Ok(v)) && v@ is None
}

/// `r` is the decision `Invalid(m)`.
pub open spec fn done_invalid_with(r: Validation, m: Seq<char>) -> bool {
    r matches Validation::Done(Ok(v)) && v@ == Some(m)
}

/// The step [`validate_item`] takes for an item written by `author`.
pub open spec fn item_step(item: Item, author: AgentPubKey, r: Validation) -> bool {
    if is_blank(item.title@) {
        done_invalid_with(r, "Item title cannot be empty"@)
    } else if item.kind == ItemKind::Scenario {
        match item.admin_grant_action_hash {
            Some(h) => r == Validation::Needs(HostQuery::GrantRecord { grant: h, author }),
            None => done_invalid_with(r, "Scenario item must reference an AdminGrant action hash"@),
        }
    } else {
        done_valid(r)
    }
}

/// The step validation takes for a stored entry written by `author`.
pub open spec fn entry_step(app_entry: EntryTypes, author: AgentPubKey, r: Validation) -> bool {
    match app_entry {
        EntryTypes::AdminGrant(g) => if g.created_at == 0 {
            done_invalid_with(r, "AdminGrant created_at must be non-zero"@)
        } else {
            r == Validation::Needs(HostQuery::DnaProperties { grant: g })
        },
        EntryTypes::Item(item) => item_step(item, author, r),
        EntryTypes::Response(_) => done_valid(r),
        EntryTypes::Finding(f) => if is_blank(f.text@) {
            done_invalid_with(r, "Finding text cannot be empty"@)
        } else {
            done_valid(r)
        },
        EntryTypes::EncryptedAttachment(_) => done_valid(r),
    }
}

/// Checks an item: the title must not be blank, and a scenario must cite an
/// administrator grant, which the host then fetches.
pub fn validate_item(item: &Item, author: &AgentPubKey) -> (r: Validation)
    ensures
        item_step(*item, *author, r),
{
    if str_is_blank(item.title.as_str()) {
        return Validation::Done(Ok(ValidateCallbackResult::Invalid(owned("Item title cannot be empty"))));
    }
    match item.kind {
        ItemKind::Scenario => match item.admin_grant_action_hash {
            Some(h) => Validation::Needs(HostQuery::GrantRecord { grant: h, author: *author }),
            None => Validation::Done(
                Ok(
                    ValidateCallbackResult::Invalid(
                        owned("Scenario item must reference an AdminGrant action hash"),
                    ),
                ),
            ),
        },
        ItemKind::Feedback => Validation::Done(Ok(ValidateCallbackResult::Valid)),
    }
}

/// Checks a finding: its text must not be blank.
pub fn validate_finding(finding: &Finding) -> (r: ValidateCallbackResult)
    ensures
        r@ == (if is_blank(finding.text@) {
            Some("Finding text cannot be empty"@)
        } else {
            None
        }),
{
    if str_is_blank(finding.text.as_str()) {
        ValidateCallbackResult::Invalid(owned("Finding text cannot be empty"))
    } else {
        ValidateCallbackResult::Valid
    }
}

/// Dispatches a stored entry to its validator, passing the author through
/// for the scenario gate.
pub fn validate_entry(app_entry: EntryTypes, author: AgentPubKey) -> (r: Validation)
    ensures
        entry_step(app_entry, author, r),
{
    match app_entry {
        EntryTypes::AdminGrant(grant) => {
            if grant.created_at == 0 {
                Validation::Done(
                    Ok(
                        ValidateCallbackResult::Invalid(
                            owned("AdminGrant created_at must be non-zero"),
                        ),
                    ),
                )
            } else {
                Validation::Needs(HostQuery::DnaProperties { grant })
            }
        },
        EntryTypes::Item(item) => validate_item(&item, &author),
        EntryTypes::Response(_) => Validation::Done(Ok(ValidateCallbackResult::Valid)),
        EntryTypes::Finding(finding) => Validation::Done(Ok(validate_finding(&finding))),
        EntryTypes::EncryptedAttachment(_) => Validation::Done(Ok(ValidateCallbackResult::Valid)),
    }
}

/// The validation callback: decides, or asks the host one question.
pub fn validate(op: Op) -> (r: Validation)
    ensures
        match op {
            Op::StoreEntry(OpEntry::CreateEntry { app_entry, author }) => entry_step(
                app_entry,
                author,
                r,
            ),
            Op::StoreEntry(OpEntry::UpdateEntry { app_entry, author }) => entry_step(
                app_entry,
                author,
                r,
            ),
            Op::RegisterCreateLink { link_type, base_address, author } => match link_type {
                LinkTypes::AllItems => r == Validation::Needs(
                    HostQuery::ItemsAnchor { base_address },
                ),
                LinkTypes::FindingToAttachment => match base_address {
                    AnyLinkableHash::Action(h) => r == Validation::Needs(
                        HostQuery::FindingAuthor { finding: h, link_author: author },
                    ),
                    _ => r matches Validation::Done(Err(e)) && e@
                        == "FindingToAttachment base must be a Finding action hash"@,
                },
                _ => done_valid(r),
            },
            _ => done_valid(r),
        },
{
    match op {
        Op::StoreEntry(store_entry) => match store_entry {
            OpEntry::CreateEntry { app_entry, author } => validate_entry(app_entry, author),
            OpEntry::UpdateEntry { app_entry, author } => validate_entry(app_entry, author),
            OpEntry::Other => Validation::Done(Ok(ValidateCallbackResult::Valid)),
        },
        Op::RegisterCreateLink { link_type, base_address, author } => match link_type {
            LinkTypes::AllItems => Validation::Needs(HostQuery::ItemsAnchor { base_address }),
            LinkTypes::ItemToResponses => Validation::Done(Ok(ValidateCallbackResult::Valid)),
            LinkTypes::ItemToFindings => Validation::Done(Ok(ValidateCallbackResult::Valid)),
            LinkTypes::AdminToGrant => Validation::Done(Ok(ValidateCallbackResult::Valid)),
            LinkTypes::AllAdmins => Validation::Done(Ok(ValidateCallbackResult::Valid)),
            LinkTypes::FindingToAttachment => match base_address {
                AnyLinkableHash::Action(h) => Validation::Needs(
                    HostQuery::FindingAuthor { finding: h, link_author: author },
                ),
                _ => Validation::Done(
                    Err(owned("FindingToAttachment base must be a Finding action hash")),
                ),
            },
        },
        Op::RegisterDeleteLink => Validation::Done(Ok(ValidateCallbackResult::Valid)),
        Op::Other => Validation::Done(Ok(ValidateCallbackResult::Valid)),
    }
}

/// The rejection message of an `AllItems` link given the items anchor's
/// hash: none when the link starts from the anchor.
pub open spec fn items_anchor_verdict(base_address: AnyLinkableHash, anchor: EntryHash) -> Option<
    Seq<char>,
> {
    if base_address matches AnyLinkableHash::Entry(e) && e.raw@ == anchor.raw@ {
        None
    } else {
        Some("AllItems link must originate from the items anchor"@)
    }
}

/// Decides an `AllItems` link once the host has hashed the items anchor.
pub fn validate_items_anchor_link(base_address: &AnyLinkableHash, anchor: &EntryHash) -> (r:
    ValidateCallbackResult)
    ensures
        r@ == items_anchor_verdict(*base_address, *anchor),
{
    let from_anchor = match base_address {
        AnyLinkableHash::Entry(e) => bytes_equal(e.raw.as_slice(), anchor.raw.as_slice()),
        _ => false,
    };
    if from_anchor {
        ValidateCallbackResult::Valid
    } else {
        ValidateCallbackResult::Invalid(owned("AllItems link must originate from the items anchor"))
    }
}

/// The rejection message of an attachment link: none when the link's author
/// wrote the finding it attaches to.
pub open spec fn attachment_link_verdict(link_author: AgentPubKey, finding_author: AgentPubKey) -> Option<
    Seq<char>,
> {
    if link_author.raw@ == finding_author.raw@ {
        None
    } else {
        Some("An attachment may only be linked to a finding by that finding's author"@)
    }
}

/// Decides a `FindingToAttachment` link once the host has fetched the
/// finding: only the finding's author may attach evidence to it.
pub fn validate_attachment_link(link_author: &AgentPubKey, finding_author: &AgentPubKey) -> (r:
    ValidateCallbackResult)
    ensures
        r@ == attachment_link_verdict(*link_author, *finding_author),
{
    if bytes_equal(link_author.raw.as_slice(), finding_author.raw.as_slice()) {
        ValidateCallbackResult::Valid
    } else {
        ValidateCallbackResult::Invalid(
            owned("An attachment may only be linked to a finding by that finding's author"),
        )
    }
}

/// What parsing the progenitor key from the DNA properties gives.
pub open spec fn progenitor_parse(s: Seq<char>) -> Result<Seq<u8>, Seq<char>> {
    raw39_parse(
        s,
        "progenitor pubkey must start with 'u'"@,
        "invalid base64 in progenitor pubkey: "@,
        "progenitor pubkey wrong length: "@,
    )
}

/// Parses the progenitor's `u`-multibase key from the DNA properties.
pub fn parse_progenitor_pubkey(s: &str) -> (r: Result<AgentPubKey, String>)
    ensures
        match r {
            Ok(k) => progenitor_parse(s@) == Ok::<Seq<u8>, Seq<char>>(k.raw@),
            Err(e) => progenitor_parse(s@) == Err::<Seq<u8>, Seq<char>>(e@),
        },
{
    match parse_raw39(
        s,
        "progenitor pubkey must start with 'u'",
        "invalid base64 in progenitor pubkey: ",
        "progenitor pubkey wrong length: ",
    ) {
        Ok(raw) => Ok(AgentPubKey { raw }),
        Err(e) => Err(e),
    }
}

/// The DNA properties to validate under: those the host decoded, or the
/// development default when they do not decode.
pub fn properties_or_default(decoded: Option<DnaProperties>) -> (r: DnaProperties)
    ensures
        match decoded {
            Some(p) => r == p,
            None => r.progenitor_pubkey is None,
        },
{
    match decoded {
        Some(p) => p,
        None => DnaProperties::default(),
    }
}

/// What checking a grant against the DNA properties gives: a decision, or
/// a signature the host must verify.
pub enum GrantCheck {
    Decided(ValidateCallbackResult),
    VerifySignature { progenitor: AgentPubKey, signature: Signature, payload: Vec<u8> },
}

/// The step [`validate_admin_grant`] takes.
pub open spec fn grant_step(grant: AdminGrant, properties: DnaProperties, r: GrantCheck) -> bool {
    if grant.created_at == 0 {
        r matches GrantCheck::Decided(v) && v@ == Some("AdminGrant created_at must be non-zero"@)
    } else {
        match properties.progenitor_pubkey {
            None => r matches GrantCheck::Decided(v) && v@ is None,
            Some(p) => match progenitor_parse(p@) {
                Err(_) => r matches GrantCheck::Decided(v) && v@ == Some(
                    "Could not parse progenitor pubkey from DNA properties"@,
                ),
                Ok(key) => r matches GrantCheck::VerifySignature { progenitor, signature, payload }
                    && progenitor.raw@ == key && signature == grant.progenitor_signature
                    && payload@ == grant.admin_pubkey.raw@,
            },
        }
    }
}

/// Checks an administrator grant. Without a progenitor (development) any
/// grant with a timestamp is accepted; with one, the progenitor's signature
/// over the 39 raw bytes of the granted key must verify, which the host
/// checks over the literal bytes.
pub fn validate_admin_grant(grant: &AdminGrant, properties: &DnaProperties) -> (r: GrantCheck)
    ensures
        grant_step(*grant, *properties, r),
{
    if grant.created_at == 0 {
        return GrantCheck::Decided(
            ValidateCallbackResult::Invalid(owned("AdminGrant created_at must be non-zero")),
        );
    }
    match &properties.progenitor_pubkey {
        None => GrantCheck::Decided(ValidateCallbackResult::Valid),
        Some(p) => match parse_progenitor_pubkey(p.as_str()) {
            Ok(progenitor) => {
                let mut payload: Vec<u8> = Vec::new();
                let mut i: usize = 0;
                while i < 39
                    invariant
                        i <= 39,
                        payload@ == grant.admin_pubkey.raw@.subrange(0, i as int),
                    decreases 39 - i,
                {
                    payload.push(grant.admin_pubkey.raw[i]);
                    assert(payload@ =~= grant.admin_pubkey.raw@.subrange(0, i + 1));
                    i += 1;
                }
                assert(payload@ =~= grant.admin_pubkey.raw@);
                GrantCheck::VerifySignature {
                    progenitor,
                    signature: grant.progenitor_signature,
                    payload,
                }
            },
            Err(_) => GrantCheck::Decided(
                ValidateCallbackResult::Invalid(
                    owned("Could not parse progenitor pubkey from DNA properties"),
                ),
            ),
        },
    }
}

/// The rejection message once the host has checked the progenitor's
/// signature.
pub open spec fn signature_verdict(verified: bool) -> Option<Seq<char>> {
    if verified {
        None
    } else {
        Some("AdminGrant progenitor_signature does not verify against progenitor pubkey"@)
    }
}

/// Decides a grant from the host's signature check.
pub fn admin_grant_signature_verdict(verified: bool) -> (r: ValidateCallbackResult)
    ensures
        r@ == signature_verdict(verified),
{
    if verified {
        ValidateCallbackResult::Valid
    } else {
        ValidateCallbackResult::Invalid(
            owned("AdminGrant progenitor_signature does not verify against progenitor pubkey"),
        )
    }
}

/// What the host found when fetching a cited grant.
pub enum GrantFetch {
    /// No valid record could be fetched.
    Unavailable,
    /// The record's entry did not decode as a grant; the decoder's message.
    Undecodable(String),
    /// The record carries no entry.
    NoEntry,
    Found(AdminGrant),
}

/// The outcome of a scenario's grant check: the rejection message (none when
/// valid), or an error message.
pub open spec fn grant_fetch_verdict(author: AgentPubKey, fetched: GrantFetch) -> Result<
    Option<Seq<char>>,
    Seq<char>,
> {
    match fetched {
        GrantFetch::Unavailable => Ok(Some("Could not fetch AdminGrant for Item validation"@)),
        GrantFetch::Undecodable(e) => Err(e@),
        GrantFetch::NoEntry => Err("Referenced AdminGrant record has no entry"@),
        GrantFetch::Found(g) => if author.raw@ != g.admin_pubkey.raw@ {
            Ok(Some("Scenario author does not match the admin in the referenced AdminGrant"@))
        } else {
            Ok(None)
        },
    }
}

/// Decides a scenario from its cited grant: the author must be the
/// administrator the grant names; citing someone else's grant is not enough.
pub fn item_grant_verdict(author: &AgentPubKey, fetched: GrantFetch) -> (r: Result<
    ValidateCallbackResult,
    String,
>)
    ensures
        match r {
            Ok(v) => grant_fetch_verdict(*author, fetched) == Ok::<
                Option<Seq<char>>,
                Seq<char>,
            >(v@),
            Err(e) => grant_fetch_verdict(*author, fetched) == Err::<Option<Seq<char>>, Seq<char>>(
                e@,
            ),
        },
{
    match fetched {
        GrantFetch::Unavailable => Ok(
            ValidateCallbackResult::Invalid(owned("Could not fetch AdminGrant for Item validation")),
        ),
        GrantFetch::Undecodable(e) => Err(e),
        GrantFetch::NoEntry => Err(owned("Referenced AdminGrant record has no entry")),
        GrantFetch::Found(grant) => {
            if !bytes_equal(author.raw.as_slice(), grant.admin_pubkey.raw.as_slice()) {
                Ok(
                    ValidateCallbackResult::Invalid(
                        owned(
                            "Scenario author does not match the admin in the referenced AdminGrant",
                        ),
                    ),
                )
            } else {
                Ok(ValidateCallbackResult::Valid)
            }
        },
    }
}

/// The whole decision on a stored item, given what the host answers when
/// asked for the cited grant: the rejection message (none when valid), or
/// an error.
pub open spec fn item_outcome(item: Item, author: AgentPubKey, fetched: GrantFetch) -> Result<
    Option<Seq<char>>,
    Seq<char>,
> {
    if is_blank(item.title@) {
        Ok(Some("Item title cannot be empty"@))
    } else if item.kind == ItemKind::Scenario {
        match item.admin_grant_action_hash {
            Some(_) => grant_fetch_verdict(author, fetched),
            None => Ok(Some("Scenario item must reference an AdminGrant action hash"@)),
        }
    } else {
        Ok(None)
    }
}

/// The whole decision on a stored grant, given the DNA properties and the
/// host's answer when asked to verify the signature.
pub open spec fn grant_outcome(grant: AdminGrant, properties: DnaProperties, verified: bool) -> Option<
    Seq<char>,
> {
    if grant.created_at == 0 {
        Some("AdminGrant created_at must be non-zero"@)
    } else {
        match properties.progenitor_pubkey {
            None => None,
            Some(p) => match progenitor_parse(p@) {
                Err(_) => Some("Could not parse progenitor pubkey from DNA properties"@),
                Ok(_) => signature_verdict(verified),
            },
        }
    }
}

/// Scenario author binding: a stored item is accepted only if its title is
/// not blank and it is either feedback, or a scenario whose cited grant was
/// fetched and names the item's author as administrator.
pub proof fn law_scenario_author_binding(item: Item, author: AgentPubKey, fetched: GrantFetch)
    ensures
        item_outcome(item, author, fetched) == Ok::<Option<Seq<char>>, Seq<char>>(None) <==> {
            &&& !is_blank(item.title@)
            &&& (item.kind == ItemKind::Feedback || {
                &&& item.admin_grant_action_hash is Some
                &&& fetched matches GrantFetch::Found(g)
                &&& g.admin_pubkey.raw@ == author.raw@
            })
        },
{
}

/// The progenitor gate: on a network with a progenitor, a grant is accepted
/// exactly when it carries a timestamp, the progenitor key parses, and the
/// host confirms the progenitor's signature; without a progenitor any
/// timestamped grant is accepted.
pub proof fn law_progenitor_gate(grant: AdminGrant, properties: DnaProperties, verified: bool)
    ensures
        grant_outcome(grant, properties, verified) is None <==> {
            &&& grant.created_at != 0
            &&& match properties.progenitor_pubkey {
                None => true,
                Some(p) => progenitor_parse(p@) is Ok && verified,
            }
        },
{
}

/// The administrator gate as validation applies it to every stored item,
/// created or updated, whoever writes it: a blank title is refused; a
/// scenario that cites no grant is refused; a scenario that cites one is
/// held until the host fetches that grant for the entry's author; and only
/// feedback is accepted outright.
pub proof fn law_stored_items_pass_the_gate(
    item: Item,
    author: AgentPubKey,
    op: Op,
    r: Validation,
)
    requires
        op == Op::StoreEntry(OpEntry::CreateEntry { app_entry: EntryTypes::Item(item), author })
            || op == Op::StoreEntry(OpEntry::UpdateEntry { app_entry: EntryTypes::Item(item), author }),
        match op {
            Op::StoreEntry(OpEntry::CreateEntry { app_entry, author }) => entry_step(app_entry, author, r),
            Op::StoreEntry(OpEntry::UpdateEntry { app_entry, author }) => entry_step(app_entry, author, r),
            _ => false,
        },
    ensures
        is_blank(item.title@) ==> (r matches Validation::Done(Ok(ValidateCallbackResult::Invalid(m)))
            && m@ == "Item title cannot be empty"@),
        !is_blank(item.title@) && item.kind == ItemKind::Scenario && item.admin_grant_action_hash is None
            ==> (r matches Validation::Done(Ok(ValidateCallbackResult::Invalid(m))) && m@
            == "Scenario item must reference an AdminGrant action hash"@),
        !is_blank(item.title@) && item.kind == ItemKind::Scenario && item.admin_grant_action_hash
            is Some ==> r == Validation::Needs(
            HostQuery::GrantRecord { grant: item.admin_grant_action_hash->0, author },
        ),
        !is_blank(item.title@) && item.kind == ItemKind::Feedback ==> (r matches Validation::Done(
            Ok(ValidateCallbackResult::Valid),
        )),
        (r matches Validation::Done(Ok(ValidateCallbackResult::Valid))) ==> item.kind
            == ItemKind::Feedback,
{
}


/// The other stored entries: a grant without a timestamp is refused and any
/// other grant is held until the DNA properties are read; a finding with
/// blank text is refused and any other accepted; verdicts and attachments
/// are accepted.
pub proof fn law_stored_entries_other_than_items(app_entry: EntryTypes, author: AgentPubKey, r: Validation)
    requires
        entry_step(app_entry, author, r),
    ensures
        app_entry matches EntryTypes::AdminGrant(g) ==> if g.created_at == 0 {
            r matches Validation::Done(Ok(ValidateCallbackResult::Invalid(m))) && m@
                == "AdminGrant created_at must be non-zero"@
        } else {
            r == Validation::Needs(HostQuery::DnaProperties { grant: g })
        },
        app_entry matches EntryTypes::Finding(f) ==> if is_blank(f.text@) {
            r matches Validation::Done(Ok(ValidateCallbackResult::Invalid(m))) && m@
                == "Finding text cannot be empty"@
        } else {
            r matches Validation::Done(Ok(ValidateCallbackResult::Valid))
        },
        app_entry is Response ==> (r matches Validation::Done(Ok(ValidateCallbackResult::Valid))),
        app_entry is EncryptedAttachment ==> (r matches Validation::Done(Ok(ValidateCallbackResult::Valid))),
{
}

/// A grant is accepted outright only on a network without a progenitor; on
/// one with a progenitor whose key parses, the host is asked to verify the
/// grant's own signature, by that key, over exactly the 39 raw bytes of the
/// granted key, and a signature that does not verify is refused.
pub proof fn law_grant_signature_gate(grant: AdminGrant, properties: DnaProperties, r: GrantCheck, verified: bool)
    requires
        grant_step(grant, properties, r),
    ensures
        (r matches GrantCheck::Decided(v) && v@ is None) ==> grant.created_at != 0
            && properties.progenitor_pubkey is None,
        grant.created_at != 0 ==> match properties.progenitor_pubkey {
            Some(p) => match progenitor_parse(p@) {
                Ok(key) => r matches GrantCheck::VerifySignature { progenitor, signature, payload }
                    && progenitor.raw@ == key && signature == grant.progenitor_signature && payload@
                    == grant.admin_pubkey.raw@,
                Err(_) => r matches GrantCheck::Decided(v) && v@ is Some,
            },
            None => true,
        },
        signature_verdict(verified) is None <==> verified,
{
}

/// Only the administrator a grant names can cite it: a scenario's grant
/// check accepts exactly when the host found the grant and it names the
/// scenario's author; and only a finding's author may attach to it.
pub proof fn law_grants_and_attachments_bind_their_author(
    author: AgentPubKey,
    fetched: GrantFetch,
    link_author: AgentPubKey,
    finding_author: AgentPubKey,
)
    ensures
        grant_fetch_verdict(author, fetched) == Ok::<Option<Seq<char>>, Seq<char>>(None) <==> (
        fetched matches GrantFetch::Found(g) && g.admin_pubkey.raw@ == author.raw@),
        attachment_link_verdict(link_author, finding_author) is None <==> link_author.raw@
            == finding_author.raw@,
{
}

} // verus!
