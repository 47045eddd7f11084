//! The coordinator's rules for items, verdicts and administrators: an item
//! is read at the head of its update chain; the live and archived lists
//! split the items between them; only administrators archive; each agent
//! holds at most one verdict per item; and the administrator list names
//! each administrator once.
//!
//! The DHT reads and writes are the caller's (the Holochain host); these
//! functions decide from what it read.

use vstd::prelude::*;

use crate::agent_key::{
    array_views, bytes_equal, dedup_keys, key_views, no_repeats, push_new,
    push_new_arrays, AgentPubKey,
};
use crate::integrity::{ActionHash, EncryptedAttachment, Item, ItemKind, RecipientWrappedKey};
use crate::text::owned;

verus! {

/// The input for creating an item.
pub struct CreateItemInput {
    pub kind: ItemKind,
    pub admin_grant_action_hash: Option<ActionHash>,
    pub campaign: String,
    pub section: String,
    pub title: String,
    pub instructions: String,
    pub look_for: String,
    pub order: u32,
}

/// Builds the item to store at time `now`: live, not archived.
pub fn do_create_item(input: CreateItemInput, now: i64) -> (r: Item)
    ensures
        r.kind == input.kind,
        r.admin_grant_action_hash == input.admin_grant_action_hash,
        r.campaign == input.campaign,
        r.section == input.section,
        r.title == input.title,
        r.instructions == input.instructions,
        r.look_for == input.look_for,
        r.order == input.order,
        r.created_at == now,
        !r.is_archived,
{
    Item {
        kind: input.kind,
        admin_grant_action_hash: input.admin_grant_action_hash,
        campaign: input.campaign,
        section: input.section,
        title: input.title,
        instructions: input.instructions,
        look_for: input.look_for,
        order: input.order,
        created_at: now,
        is_archived: false,
    }
}

/// The position of the newest update, the first listed among equally new
/// ones; none when there are no updates.
pub open spec fn newest_update(ts: Seq<i64>) -> Option<int>
    decreases ts.len(),
{
    if ts.len() == 0 {
        None
    } else {
        match newest_update(ts.drop_last()) {
            None => Some(0),
            Some(p) => if ts.last() > ts[p] {
                Some(ts.len() - 1)
            } else {
                Some(p)
            },
        }
    }
}

/// The update an item is read at, given the timestamps of its updates: the
/// newest, and of equally new ones the first listed; none when there are no
/// updates (the item as first created is the latest).
pub fn get_latest_record(update_timestamps: &Vec<i64>) -> (r: Option<usize>)
    ensures
        match r {
            Some(i) => newest_update(update_timestamps@) == Some(i as int),
            None => newest_update(update_timestamps@) is None,
        },
        update_timestamps@.len() == 0 <==> r is None,
        r matches Some(i) ==> {
            &&& i < update_timestamps@.len()
            &&& forall|j: int|
                0 <= j < update_timestamps@.len() ==> update_timestamps@[j] <= update_timestamps@[i as int]
            &&& forall|j: int| 0 <= j < i ==> update_timestamps@[j] < update_timestamps@[i as int]
        },
{
    if update_timestamps.len() == 0 {
        return None;
    }
    let mut latest: usize = 0;
    let mut i: usize = 1;
    assert(update_timestamps@.subrange(0, 1).drop_last() =~= Seq::<i64>::empty());
    assert(newest_update(Seq::<i64>::empty()) is None);
    assert(newest_update(update_timestamps@.subrange(0, 1)) == Some(0int));
    while i < update_timestamps.len()
        invariant
            1 <= i <= update_timestamps@.len(),
            latest < i,
            newest_update(update_timestamps@.subrange(0, i as int)) == Some(latest as int),
            forall|j: int| 0 <= j < i ==> update_timestamps@[j] <= update_timestamps@[latest as int],
            forall|j: int| 0 <= j < latest ==> update_timestamps@[j] < update_timestamps@[latest as int],
        decreases update_timestamps@.len() - i,
    {
        assert(update_timestamps@.subrange(0, i + 1).drop_last() =~= update_timestamps@.subrange(0, i as int));
        if update_timestamps[i] > update_timestamps[latest] {
            latest = i;
        }
        i += 1;
    }
    assert(update_timestamps@.subrange(0, update_timestamps@.len() as int) =~= update_timestamps@);
    Some(latest)
}

/// The record an archive or unarchive update is made against: the newest
/// update of the item when it has any, else the item as first created. So
/// an update chains off the head the reader sees, not off the original.
pub open spec fn update_target(original: Seq<u8>, update_hashes: Seq<Seq<u8>>, ts: Seq<i64>) -> Seq<u8> {
    match newest_update(ts) {
        None => original,
        Some(i) => update_hashes[i],
    }
}

/// Picks the record an archive or unarchive update chains from, given the
/// item's hash and the hashes and timestamps of its updates.
pub fn archive_update_target(original: &ActionHash, update_hashes: &Vec<ActionHash>, update_timestamps: &Vec<i64>) -> (r: ActionHash)
    requires
        update_hashes@.len() == update_timestamps@.len(),
    ensures
        r.raw@ == update_target(
            original.raw@,
            update_hashes@.map_values(|h: ActionHash| h.raw@),
            update_timestamps@,
        ),
{
    match get_latest_record(update_timestamps) {
        None => *original,
        Some(i) => update_hashes[i],
    }
}

/// Archive then unarchive makes a chain, not siblings: the first update of
/// an item that has none is made against the item itself, and the next one
/// against that first update.
pub proof fn law_archive_chain_is_linear(original: Seq<u8>, first_update: Seq<u8>, t: i64)
    ensures
        update_target(original, seq![], seq![]) == original,
        update_target(original, seq![first_update], seq![t]) == first_update,
{
    assert(seq![t].drop_last() =~= Seq::<i64>::empty());
    assert(newest_update(Seq::<i64>::empty()) is None);
}

/// The positions, in order, of the items whose archived flag is
/// `archived`; an entry that does not decode as an item (none) is in
/// neither list.
pub open spec fn archived_is(flag: Option<bool>, archived: bool) -> bool {
    flag matches Some(a) && a == archived
}

/// Selects, in order, the items of the live list (`archived` false) or the
/// archived list (`archived` true), given each linked item's archived flag
/// at the head of its chain.
pub fn select_items(archived_flags: &Vec<Option<bool>>, archived: bool) -> (r: Vec<usize>)
    ensures
        forall|k: int|
            0 <= k < r@.len() ==> r@[k] < archived_flags@.len() && archived_is(
                archived_flags@[r@[k] as int],
                archived,
            ),
        forall|k: int, l: int| 0 <= k < l < r@.len() ==> r@[k] < r@[l],
        forall|i: int|
            0 <= i < archived_flags@.len() && archived_is(#[trigger] archived_flags@[i], archived)
                ==> exists|k: int| 0 <= k < r@.len() && r@[k] == i,
{
    let mut r: Vec<usize> = Vec::new();
    let mut i: usize = 0;
    while i < archived_flags.len()
        invariant
            i <= archived_flags@.len(),
            forall|k: int|
                0 <= k < r@.len() ==> r@[k] < i && archived_is(archived_flags@[r@[k] as int], archived),
            forall|k: int, l: int| 0 <= k < l < r@.len() ==> r@[k] < r@[l],
            forall|j: int|
                0 <= j < i && archived_is(#[trigger] archived_flags@[j], archived) ==> exists|k: int|
                    0 <= k < r@.len() && r@[k] == j,
        decreases archived_flags@.len() - i,
    {
        let ghost before = r@;
        let keep = match archived_flags[i] {
            Some(a) => a == archived,
            None => false,
        };
        if keep {
            r.push(i);
            assert forall|j: int|
                0 <= j < i + 1 && archived_is(#[trigger] archived_flags@[j], archived) implies exists|
                    k: int,
                | 0 <= k < r@.len() && r@[k] == j by {
                if j == i {
                    assert(r@[r@.len() - 1] == j);
                } else {
                    let k = choose|k: int| 0 <= k < before.len() && before[k] == j;
                    assert(r@[k] == j);
                }
            }
        }
        i += 1;
    }
    r
}

/// The live and archived lists split the items: every item that decodes is
/// in exactly one of them.
pub proof fn law_lists_partition_items(flag: Option<bool>)
    ensures
        flag is Some ==> (archived_is(flag, false) != archived_is(flag, true)),
        flag is None ==> !archived_is(flag, false) && !archived_is(flag, true),
{
}

/// What archiving or unarchiving decides: only an administrator may, the
/// item must be found, and the head of its chain is updated with the flag
/// set.
pub open spec fn archive_decision(is_admin: bool, found: bool) -> Result<(), Seq<char>> {
    if !is_admin {
        Err("Only administrators can archive items"@)
    } else if !found {
        Err("Item not found"@)
    } else {
        Ok(())
    }
}

/// Decides an archive or unarchive request, given whether the caller is an
/// administrator and the item at the head of its chain (none when not
/// found), and builds the updated item.
pub fn set_item_archived(is_admin: bool, latest: Option<Item>, archived: bool) -> (r: Result<Item, String>)
    ensures
        match archive_decision(is_admin, latest is Some) {
            Err(m) => r matches Err(e) && e@ == m,
            Ok(_) => r matches Ok(item) && {
                let old_item = latest->0;
                &&& item.is_archived == archived
                &&& item.kind == old_item.kind
                &&& item.admin_grant_action_hash == old_item.admin_grant_action_hash
                &&& item.campaign == old_item.campaign
                &&& item.section == old_item.section
                &&& item.title == old_item.title
                &&& item.instructions == old_item.instructions
                &&& item.look_for == old_item.look_for
                &&& item.order == old_item.order
                &&& item.created_at == old_item.created_at
            },
        },
{
    if !is_admin {
        return Err(owned("Only administrators can archive items"));
    }
    match latest {
        None => Err(owned("Item not found")),
        Some(item) => Ok(Item { is_archived: archived, ..item }),
    }
}

/// The positions, in order, of the verdict links `me` wrote on an item:
/// those replaced when `me` responds again.
pub fn own_response_links(link_authors: &Vec<AgentPubKey>, me: &AgentPubKey) -> (r: Vec<usize>)
    ensures
        forall|k: int|
            0 <= k < r@.len() ==> r@[k] < link_authors@.len() && link_authors@[r@[k] as int].raw@
                == me.raw@,
        forall|k: int, l: int| 0 <= k < l < r@.len() ==> r@[k] < r@[l],
        forall|i: int|
            0 <= i < link_authors@.len() && (#[trigger] link_authors@[i]).raw@ == me.raw@ ==> exists|
                k: int,
            | 0 <= k < r@.len() && r@[k] == i,
        picks_own_links(key_views(link_authors@), r@, me.raw@),
{
    let mut r: Vec<usize> = Vec::new();
    let mut i: usize = 0;
    while i < link_authors.len()
        invariant
            i <= link_authors@.len(),
            forall|k: int|
                0 <= k < r@.len() ==> r@[k] < i && link_authors@[r@[k] as int].raw@ == me.raw@,
            forall|k: int, l: int| 0 <= k < l < r@.len() ==> r@[k] < r@[l],
            forall|j: int|
                0 <= j < i && (#[trigger] link_authors@[j]).raw@ == me.raw@ ==> exists|k: int|
                    0 <= k < r@.len() && r@[k] == j,
        decreases link_authors@.len() - i,
    {
        let ghost before = r@;
        if bytes_equal(link_authors[i].raw.as_slice(), me.raw.as_slice()) {
            r.push(i);
            assert forall|j: int|
                0 <= j < i + 1 && (#[trigger] link_authors@[j]).raw@ == me.raw@ implies exists|k: int|
                    0 <= k < r@.len() && r@[k] == j by {
                if j == i {
                    assert(r@[r@.len() - 1] == j);
                } else {
                    let k = choose|k: int| 0 <= k < before.len() && before[k] == j;
                    assert(r@[k] == j);
                }
            }
        }
        i += 1;
    }
    proof {
        let authors = key_views(link_authors@);
        assert forall|j: int| 0 <= j < authors.len() implies (#[trigger] r@.contains(j as usize)
            <==> authors[j] == me.raw@) by {
            assert(authors[j] == link_authors@[j].raw@);
            if r@.contains(j as usize) {
                let k = choose|k: int| 0 <= k < r@.len() && r@[k] == j as usize;
            }
            if authors[j] == me.raw@ {
                let k = choose|k: int| 0 <= k < r@.len() && r@[k] == j;
                assert(r@[k] == j as usize);
            }
        }
    }
    r
}

/// `deleted` names exactly the positions of the links `me` wrote.
pub open spec fn picks_own_links(authors: Seq<Seq<u8>>, deleted: Seq<usize>, me: Seq<u8>) -> bool {
    forall|j: int| 0 <= j < authors.len() ==> (#[trigger] deleted.contains(j as usize) <==> authors[j] == me)
}

/// The links that remain after deleting those at the positions `deleted`.
pub open spec fn without_positions(authors: Seq<Seq<u8>>, deleted: Seq<usize>) -> Seq<Seq<u8>>
    decreases authors.len(),
{
    if authors.len() == 0 {
        authors
    } else if deleted.contains((authors.len() - 1) as usize) {
        without_positions(authors.drop_last(), deleted)
    } else {
        without_positions(authors.drop_last(), deleted).push(authors.last())
    }
}

proof fn lemma_without_own_links(authors: Seq<Seq<u8>>, deleted: Seq<usize>, me: Seq<u8>)
    requires
        picks_own_links(authors, deleted, me),
    ensures
        without_positions(authors, deleted) == authors.filter(not_by(me)),
    decreases authors.len(),
{
    reveal(Seq::filter);
    if authors.len() > 0 {
        let prefix = authors.drop_last();
        assert forall|j: int| 0 <= j < prefix.len() implies (#[trigger] deleted.contains(j as usize)
            <==> prefix[j] == me) by {
            assert(prefix[j] == authors[j]);
        }
        lemma_without_own_links(prefix, deleted, me);
        let last = (authors.len() - 1) as int;
        assert(deleted.contains(last as usize) <==> authors[last] == me);
        assert(authors.last() == authors[last]);
    }
}

/// Keeps the links not written by `me`.
pub open spec fn not_by(me: Seq<u8>) -> spec_fn(Seq<u8>) -> bool {
    |a: Seq<u8>| a != me
}

/// The authors of an item's verdict links after `me` responds: the others'
/// links stay, `me`'s are replaced by one new one.
pub open spec fn after_respond(authors: Seq<Seq<u8>>, me: Seq<u8>) -> Seq<Seq<u8>> {
    authors.filter(not_by(me)).push(me)
}

/// How many of the links `who` wrote.
pub open spec fn count_of(authors: Seq<Seq<u8>>, who: Seq<u8>) -> nat
    decreases authors.len(),
{
    if authors.len() == 0 {
        0
    } else {
        count_of(authors.drop_last(), who) + (if authors.last() == who {
            1nat
        } else {
            0nat
        })
    }
}

proof fn lemma_count_filtered(authors: Seq<Seq<u8>>, me: Seq<u8>, other: Seq<u8>)
    ensures
        count_of(authors.filter(not_by(me)), me) == 0,
        other != me ==> count_of(authors.filter(not_by(me)), other) == count_of(authors, other),
    decreases authors.len(),
{
    reveal(Seq::filter);
    if authors.len() > 0 {
        lemma_count_filtered(authors.drop_last(), me, other);
        let sub = authors.drop_last().filter(not_by(me));
        let out = authors.filter(not_by(me));
        if not_by(me)(authors.last()) {
            assert(out == sub.push(authors.last()));
            assert(out.drop_last() =~= sub);
            assert(out.last() == authors.last());
        } else {
            assert(out == sub);
        }
    }
}

/// One verdict per agent per item: when `me` responds, the links at the
/// positions [`own_response_links`] picks are deleted and one new link by
/// `me` is added; afterwards exactly one of the item's verdict links is
/// `me`'s, and every other agent keeps as many as before.
pub proof fn law_one_response_per_agent(
    authors: Seq<Seq<u8>>,
    deleted: Seq<usize>,
    me: Seq<u8>,
    other: Seq<u8>,
)
    requires
        picks_own_links(authors, deleted, me),
    ensures
        without_positions(authors, deleted).push(me) == after_respond(authors, me),
        count_of(without_positions(authors, deleted).push(me), me) == 1,
        other != me ==> count_of(without_positions(authors, deleted).push(me), other) == count_of(
            authors,
            other,
        ),
{
    lemma_without_own_links(authors, deleted, me);
    lemma_count_filtered(authors, me, other);
    let kept = authors.filter(not_by(me));
    assert(after_respond(authors, me).drop_last() =~= kept);
    assert(after_respond(authors, me).last() == me);
}

/// The administrators, each once, in order of their first grant.
pub fn get_administrators(grant_admins: &Vec<AgentPubKey>) -> (r: Vec<AgentPubKey>)
    ensures
        key_views(r@) == push_new(Seq::empty(), key_views(grant_admins@)),
        no_repeats(key_views(r@)),
{
    dedup_keys(grant_admins)
}

/// Whether an agent holds a grant, given how many grant links it has.
pub fn is_administrator(grant_links: usize) -> (r: bool)
    ensures
        r == (grant_links > 0),
{
    grant_links > 0
}

/// The published companion keys, each once, in order of publication.
pub fn get_admin_x25519_keys(published: &Vec<[u8; 32]>) -> (r: Vec<[u8; 32]>)
    ensures
        array_views(r@) == push_new(Seq::empty(), array_views(published@)),
{
    let mut r: Vec<[u8; 32]> = Vec::new();
    assert(array_views(r@) =~= Seq::<Seq<u8>>::empty());
    push_new_arrays(&mut r, published);
    r
}

/// Position `i` occurs in `order`.
pub open spec fn listed(order: Seq<usize>, i: int) -> bool {
    exists|k: int| 0 <= k < order.len() && order[k] == i
}

/// The input for storing an attachment on a finding.
pub struct StoreAttachmentInput {
    pub finding_action_hash: ActionHash,
    pub image_ciphertext: Vec<u8>,
    pub bulk_nonce: Vec<u8>,
    pub per_recipient: Vec<RecipientWrappedKey>,
    pub sender_ed25519: Vec<u8>,
    pub media_hint: String,
}

/// Builds the attachment to store at time `now`, once its finding is found;
/// it carries what the uploader sealed and wrapped, unchanged, and is linked
/// from the finding whose hash the input names.
pub fn store_encrypted_attachment(input: StoreAttachmentInput, finding_found: bool, now: i64) -> (r:
    Result<(ActionHash, EncryptedAttachment), String>)
    ensures
        !finding_found ==> (r matches Err(e) && e@ == "Finding not found"@),
        finding_found ==> (r matches Ok((h, a)) && h == input.finding_action_hash
            && a.image_ciphertext == input.image_ciphertext && a.bulk_nonce == input.bulk_nonce
            && a.per_recipient == input.per_recipient && a.sender_ed25519 == input.sender_ed25519
            && a.media_hint == input.media_hint && a.created_at == now),
{
    if !finding_found {
        return Err(owned("Finding not found"));
    }
    Ok(
        (
            input.finding_action_hash,
            EncryptedAttachment {
                image_ciphertext: input.image_ciphertext,
                bulk_nonce: input.bulk_nonce,
                per_recipient: input.per_recipient,
                sender_ed25519: input.sender_ed25519,
                media_hint: input.media_hint,
                created_at: now,
            },
        ),
    )
}

/// `a` comes before `b` newest first: a later timestamp, or the same one
/// listed earlier.
pub open spec fn newer_first(ts: Seq<i64>, a: usize, b: usize) -> bool {
    ts[a as int] > ts[b as int] || (ts[a as int] == ts[b as int] && a < b)
}

/// The order to try an agent's published keys in: newest first, equally new
/// ones as listed (a stable sort of the positions by timestamp).
pub fn newest_first(timestamps: &Vec<i64>) -> (r: Vec<usize>)
    ensures
        r@.len() == timestamps@.len(),
        forall|k: int| 0 <= k < r@.len() ==> r@[k] < timestamps@.len(),
        forall|k: int, l: int| 0 <= k < l < r@.len() ==> newer_first(timestamps@, r@[k], r@[l]),
        forall|i: int| 0 <= i < timestamps@.len() ==> #[trigger] listed(r@, i),
{
    let ghost ts = timestamps@;
    let mut r: Vec<usize> = Vec::new();
    let mut i: usize = 0;
    while i < timestamps.len()
        invariant
            ts == timestamps@,
            i <= ts.len(),
            r@.len() == i,
            forall|k: int| 0 <= k < r@.len() ==> r@[k] < i,
            forall|k: int, l: int| 0 <= k < l < r@.len() ==> newer_first(ts, r@[k], r@[l]),
            forall|j: int| 0 <= j < i ==> #[trigger] listed(r@, j),
        decreases ts.len() - i,
    {
        let mut p: usize = 0;
        while p < r.len() && timestamps[r[p]] >= timestamps[i]
            invariant
                ts == timestamps@,
                i < ts.len(),
                p <= r@.len(),
                forall|k: int| 0 <= k < r@.len() ==> r@[k] < i,
                forall|k: int| 0 <= k < p ==> ts[r@[k] as int] >= ts[i as int],
            decreases r@.len() - p,
        {
            p += 1;
        }
        let ghost before = r@;
        proof {
            assert forall|k: int| p <= k < before.len() implies ts[before[k] as int] < ts[i as int] by {
                if p < before.len() {
                    assert(ts[before[p as int] as int] < ts[i as int]);
                    if k > p {
                        assert(newer_first(ts, before[p as int], before[k]));
                    }
                }
            }
        }
        r.insert(p, i);
        proof {
            assert(r@ =~= before.insert(p as int, i));
            assert forall|k: int, l: int| 0 <= k < l < r@.len() implies newer_first(ts, r@[k], r@[l]) by {
                if k < p && l < p {
                    assert(r@[k] == before[k] && r@[l] == before[l]);
                } else if k < p && l == p {
                    assert(r@[k] == before[k]);
                    assert(before[k] < i);
                } else if k < p {
                    assert(r@[k] == before[k] && r@[l] == before[l - 1]);
                } else if k == p {
                    assert(r@[l] == before[l - 1]);
                } else {
                    assert(r@[k] == before[k - 1] && r@[l] == before[l - 1]);
                }
            }
            assert forall|j: int| 0 <= j < i + 1 implies #[trigger] listed(r@, j) by {
                if j == i {
                    assert(r@[p as int] == j);
                } else {
                    assert(listed(before, j));
                    let k = choose|k: int| 0 <= k < before.len() && before[k] == j;
                    if k < p {
                        assert(r@[k] == j);
                    } else {
                        assert(r@[k + 1] == j);
                    }
                }
            }
        }
        i += 1;
    }
    r
}

} // verus!
