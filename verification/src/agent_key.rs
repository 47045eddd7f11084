//! Agent public keys in their 39-byte holo-hash form (a 3-byte type prefix,
//! the 32-byte Ed25519 key and a 4-byte DHT location) and their `uhCAk...`
//! text form: a `u` multibase prefix over URL-safe base64 without padding.

use vstd::prelude::*;
use vstd::string::*;

use crate::codec::{
    decode_url_safe_no_pad, encode_standard, encode_url_safe_no_pad, standard_encoded,
    url_safe_no_pad_decoded, url_safe_no_pad_encoded,
};
use crate::text::{concat2, decimal, decimal_string, owned, push_char};

verus! {

/// An agent's public key, held as the 39 raw bytes of its holo-hash.
#[derive(Clone, Copy, Debug)]
pub struct AgentPubKey {
    pub raw: [u8; 39],
}

/// Whether two byte strings are equal.
pub fn bytes_equal(a: &[u8], b: &[u8]) -> (r: bool)
    ensures
        r == (a@ == b@),
{
    if a.len() != b.len() {
        return false;
    }
    let mut i: usize = 0;
    while i < a.len()
        invariant
            a@.len() == b@.len(),
            i <= a@.len(),
            forall|j: int| 0 <= j < i ==> a@[j] == b@[j],
        decreases a@.len() - i,
    {
        if a[i] != b[i] {
            return false;
        }
        i += 1;
    }
    assert(a@ =~= b@);
    true
}

/// The bytes `v[from..from + N]` as an array.
pub fn array_from<const N: usize>(v: &[u8], from: usize) -> (a: [u8; N])
    requires
        from + N <= v@.len(),
    ensures
        a@ == v@.subrange(from as int, from + N),
{
    let mut a = [0u8; N];
    let mut i: usize = 0;
    while i < N
        invariant
            i <= N,
            from + N <= v@.len(),
            v@.len() == v.len(),
            a@.len() == N,
            forall|j: int| 0 <= j < i ==> a@[j] == v@[from + j],
        decreases N - i,
    {
        assert(from + i < v@.len());
        a[i] = v[from + i];
        i += 1;
    }
    assert(a@ =~= v@.subrange(from as int, from + N));
    a
}

/// What parsing a key's text form gives: the 39 raw bytes, or an error built
/// from the three messages (no `u` prefix, bad base64, wrong length).
pub open spec fn raw39_parse(
    s: Seq<char>,
    not_u: Seq<char>,
    bad_b64: Seq<char>,
    bad_len: Seq<char>,
) -> Result<Seq<u8>, Seq<char>> {
    if s.len() == 0 || s[0] != 'u' {
        Err(not_u)
    } else {
        match url_safe_no_pad_decoded(s.drop_first()) {
            Err(e) => Err(bad_b64 + e.0),
            Ok(raw) => if raw.len() == 39 {
                Ok(raw)
            } else {
                Err(bad_len + decimal(raw.len()) + " (expected 39)"@)
            },
        }
    }
}

/// Strips the `u` prefix, decodes the rest and insists on 39 bytes.
pub fn parse_raw39(s: &str, not_u: &str, bad_b64: &str, bad_len: &str) -> (r: Result<
    [u8; 39],
    String,
>)
    ensures
        match r {
            Ok(k) => raw39_parse(s@, not_u@, bad_b64@, bad_len@) == Ok::<Seq<u8>, Seq<char>>(k@),
            Err(e) => raw39_parse(s@, not_u@, bad_b64@, bad_len@) == Err::<Seq<u8>, Seq<char>>(
                e@,
            ),
        },
        forall|raw: Seq<u8>|
            raw.len() == 39 && s@ == #[trigger] key_text(raw) ==> (r matches Ok(k) && k@ == raw),
{
    let n = s.unicode_len();
    if n == 0 || s.get_char(0) != 'u' {
        return Err(owned(not_u));
    }
    let b64 = s.substring_char(1, n);
    assert(b64@ =~= s@.drop_first());
    proof {
        assert forall|raw: Seq<u8>| raw.len() == 39 && s@ == #[trigger] key_text(raw) implies b64@
            == url_safe_no_pad_encoded(raw) by {
            assert(key_text(raw).drop_first() =~= url_safe_no_pad_encoded(raw));
        }
    }
    match decode_url_safe_no_pad(b64) {
        Err(f) => Err(concat2(bad_b64, f.display.as_str())),
        Ok(raw) => {
            if raw.len() != 39 {
                let count = decimal_string(raw.len() as u64);
                let mut m = concat2(bad_len, count.as_str());
                m.append(" (expected 39)");
                Err(m)
            } else {
                let a: [u8; 39] = array_from(raw.as_slice(), 0);
                assert(raw@.subrange(0, 39) =~= raw@);
                Ok(a)
            }
        },
    }
}

/// What `parse_agent_pub_key_string` gives for `s`.
pub open spec fn agent_key_parse(s: Seq<char>) -> Result<Seq<u8>, Seq<char>> {
    raw39_parse(
        s,
        "Agent key must start with 'u'"@,
        "Invalid base64 in agent key: "@,
        "Agent key wrong length: "@,
    )
}

/// Parses a `uhCAk...` agent key string, keeping all 39 bytes (the DHT
/// location included) so the key matches what an external signer used.
pub fn parse_agent_pub_key_string(s: &str) -> (r: Result<AgentPubKey, String>)
    ensures
        match r {
            Ok(k) => agent_key_parse(s@) == Ok::<Seq<u8>, Seq<char>>(k.raw@),
            Err(e) => agent_key_parse(s@) == Err::<Seq<u8>, Seq<char>>(e@),
        },
        forall|raw: Seq<u8>|
            raw.len() == 39 && s@ == #[trigger] key_text(raw) ==> (r matches Ok(k) && k.raw@ == raw),
{
    match parse_raw39(
        s,
        "Agent key must start with 'u'",
        "Invalid base64 in agent key: ",
        "Agent key wrong length: ",
    ) {
        Ok(raw) => Ok(AgentPubKey { raw }),
        Err(e) => Err(e),
    }
}

/// The 32-byte Ed25519 key inside an agent key: bytes 3 to 35 of the 39.
pub fn ed25519_bytes_from_agent(agent: &AgentPubKey) -> (r: [u8; 32])
    ensures
        r@ == agent.raw@.subrange(3, 35),
{
    array_from(agent.raw.as_slice(), 3)
}

/// The Ed25519 key of the local agent, given the agent key string the app
/// holds (none before the network is installed).
pub fn get_agent_ed25519_bytes(agent_pub_key: &Option<String>) -> (r: Result<[u8; 32], String>)
    ensures
        match agent_pub_key {
            None => r is Err && r->Err_0@ == "Agent key not available"@,
            Some(s) => match agent_key_parse(s@) {
                Ok(raw) => r is Ok && r->Ok_0@ == raw.subrange(3, 35),
                Err(e) => r is Err && r->Err_0@ == e,
            },
        },
{
    match agent_pub_key {
        None => Err(owned("Agent key not available")),
        Some(s) => {
            match parse_agent_pub_key_string(s.as_str()) {
                Ok(k) => Ok(ed25519_bytes_from_agent(&k)),
                Err(e) => Err(e),
            }
        },
    }
}

/// The standard base64 of the 39 raw bytes of an agent key string: the exact
/// bytes an external signer must sign for an administrator grant.
pub fn pubkey_raw_b64(pubkey_str: &str) -> (r: Result<String, String>)
    ensures
        match agent_key_parse(pubkey_str@) {
            Ok(raw) => r is Ok && r->Ok_0@ == standard_encoded(raw),
            Err(_) => r is Err && r->Err_0@ == "Invalid pubkey format"@,
        },
        r matches Ok(t) ==> forall|b: Seq<u8>| #[trigger] standard_encoded(b) == t@ ==> agent_key_parse(pubkey_str@) == Ok::<Seq<u8>, Seq<char>>(b),
{
    match parse_agent_pub_key_string(pubkey_str) {
        Err(_) => Err(owned("Invalid pubkey format")),
        Ok(k) => Ok(encode_standard(k.raw.as_slice())),
    }
}

/// The raw bytes of each key, in order.
pub open spec fn key_views(keys: Seq<AgentPubKey>) -> Seq<Seq<u8>> {
    keys.map_values(|k: AgentPubKey| k.raw@)
}

/// The bytes of each 32-byte key, in order.
pub open spec fn array_views(keys: Seq<[u8; 32]>) -> Seq<Seq<u8>> {
    keys.map_values(|k: [u8; 32]| k@)
}

/// No key occurs twice.
pub open spec fn no_repeats(s: Seq<Seq<u8>>) -> bool {
    forall|i: int, j: int| 0 <= i < j < s.len() ==> s[i] != s[j]
}

/// `acc` followed, in order, by each key of `more` that is not already
/// there: a list of keys extended without repeating any.
pub open spec fn push_new(acc: Seq<Seq<u8>>, more: Seq<Seq<u8>>) -> Seq<Seq<u8>>
    decreases more.len(),
{
    if more.len() == 0 {
        acc
    } else {
        let prev = push_new(acc, more.drop_last());
        if prev.contains(more.last()) {
            prev
        } else {
            prev.push(more.last())
        }
    }
}

/// Extending a list without repeats: what was there stays first, nothing
/// occurs twice if nothing did before, and a key is in the result exactly
/// when it was in either list.
pub proof fn lemma_push_new(acc: Seq<Seq<u8>>, more: Seq<Seq<u8>>)
    ensures
        push_new(acc, more).len() >= acc.len(),
        push_new(acc, more).subrange(0, acc.len() as int) == acc,
        no_repeats(acc) ==> no_repeats(push_new(acc, more)),
        forall|x: Seq<u8>| #[trigger] push_new(acc, more).contains(x) <==> (acc.contains(x) || more.contains(x)),
    decreases more.len(),
{
    if more.len() > 0 {
        let prev = push_new(acc, more.drop_last());
        lemma_push_new(acc, more.drop_last());
        let out = push_new(acc, more);
        if !prev.contains(more.last()) {
            assert(out.subrange(0, acc.len() as int) =~= prev.subrange(0, acc.len() as int));
            assert forall|x: Seq<u8>| #[trigger] out.contains(x) <==> (acc.contains(x) || more.contains(x)) by {
                if out.contains(x) {
                    let i = choose|i: int| 0 <= i < out.len() && out[i] == x;
                    if i < prev.len() {
                        assert(prev[i] == x);
                        assert(prev.contains(x));
                        if more.drop_last().contains(x) {
                            let j = choose|j: int| 0 <= j < more.drop_last().len() && more.drop_last()[j] == x;
                            assert(more[j] == x);
                        }
                    } else {
                        assert(more[more.len() - 1] == x);
                    }
                }
                if more.contains(x) && !acc.contains(x) {
                    let j = choose|j: int| 0 <= j < more.len() && more[j] == x;
                    if j < more.len() - 1 {
                        assert(more.drop_last()[j] == x);
                        assert(prev.contains(x));
                        let i = choose|i: int| 0 <= i < prev.len() && prev[i] == x;
                        assert(out[i] == x);
                    } else {
                        assert(out[out.len() - 1] == x);
                    }
                }
                if acc.contains(x) {
                    assert(prev.contains(x));
                    let i = choose|i: int| 0 <= i < prev.len() && prev[i] == x;
                    assert(out[i] == x);
                }
            }
            if no_repeats(acc) {
                assert forall|i: int, j: int| 0 <= i < j < out.len() implies out[i] != out[j] by {
                    if j == out.len() - 1 {
                        assert(out[i] == prev[i]);
                    } else {
                        assert(out[i] == prev[i] && out[j] == prev[j]);
                    }
                }
            }
        } else {
            assert forall|x: Seq<u8>| #[trigger] out.contains(x) <==> (acc.contains(x) || more.contains(x)) by {
                if more.drop_last().contains(x) {
                    let j = choose|j: int| 0 <= j < more.drop_last().len() && more.drop_last()[j] == x;
                    assert(more[j] == x);
                }
                if more.contains(x) && !acc.contains(x) {
                    let j = choose|j: int| 0 <= j < more.len() && more[j] == x;
                    if j < more.len() - 1 {
                        assert(more.drop_last()[j] == x);
                    } else {
                        assert(x == more.last());
                    }
                }
                if out.contains(x) {
                    assert(prev.contains(x));
                }
            }
        }
    }
}

/// Whether `keys` holds `k`.
pub fn contains_key(keys: &Vec<AgentPubKey>, k: &AgentPubKey) -> (r: bool)
    ensures
        r == key_views(keys@).contains(k.raw@),
{
    let mut i: usize = 0;
    while i < keys.len()
        invariant
            i <= keys@.len(),
            forall|j: int| 0 <= j < i ==> (#[trigger] keys@[j]).raw@ != k.raw@,
        decreases keys@.len() - i,
    {
        if bytes_equal(keys[i].raw.as_slice(), k.raw.as_slice()) {
            assert(key_views(keys@)[i as int] == k.raw@);
            return true;
        }
        i += 1;
    }
    proof {
        if key_views(keys@).contains(k.raw@) {
            let j = choose|j: int| 0 <= j < key_views(keys@).len() && key_views(keys@)[j] == k.raw@;
            assert(keys@[j].raw@ == k.raw@);
        }
    }
    false
}

/// Appends to `acc` each key of `more` it does not hold yet, in order.
pub fn push_new_keys(acc: &mut Vec<AgentPubKey>, more: &Vec<AgentPubKey>)
    ensures
        key_views(final(acc)@) == push_new(key_views(old(acc)@), key_views(more@)),
{
    let ghost start = key_views(acc@);
    let mut i: usize = 0;
    assert(key_views(more@).subrange(0, 0) =~= Seq::<Seq<u8>>::empty());
    while i < more.len()
        invariant
            i <= more@.len(),
            key_views(acc@) == push_new(start, key_views(more@).subrange(0, i as int)),
        decreases more@.len() - i,
    {
        let k = more[i];
        let present = contains_key(acc, &k);
        let ghost before = acc@;
        if !present {
            acc.push(k);
            assert(key_views(acc@) =~= key_views(before).push(k.raw@));
        }
        proof {
            let sub = key_views(more@).subrange(0, i + 1);
            assert(sub.drop_last() =~= key_views(more@).subrange(0, i as int));
            assert(sub.last() == k.raw@);
        }
        i += 1;
    }
    assert(key_views(more@).subrange(0, more@.len() as int) =~= key_views(more@));
}

/// The keys of `keys` with repeats dropped, in order of first occurrence.
pub fn dedup_keys(keys: &Vec<AgentPubKey>) -> (r: Vec<AgentPubKey>)
    ensures
        key_views(r@) == push_new(Seq::empty(), key_views(keys@)),
        no_repeats(key_views(r@)),
{
    let mut r: Vec<AgentPubKey> = Vec::new();
    assert(key_views(r@) =~= Seq::<Seq<u8>>::empty());
    push_new_keys(&mut r, keys);
    proof {
        lemma_push_new(Seq::empty(), key_views(keys@));
    }
    r
}

/// Whether `keys` holds `k`.
pub fn contains_array(keys: &Vec<[u8; 32]>, k: &[u8; 32]) -> (r: bool)
    ensures
        r == array_views(keys@).contains(k@),
{
    let mut i: usize = 0;
    while i < keys.len()
        invariant
            i <= keys@.len(),
            forall|j: int| 0 <= j < i ==> (#[trigger] keys@[j])@ != k@,
        decreases keys@.len() - i,
    {
        if bytes_equal(keys[i].as_slice(), k.as_slice()) {
            assert(array_views(keys@)[i as int] == k@);
            return true;
        }
        i += 1;
    }
    proof {
        if array_views(keys@).contains(k@) {
            let j = choose|j: int| 0 <= j < array_views(keys@).len() && array_views(keys@)[j] == k@;
            assert(keys@[j]@ == k@);
        }
    }
    false
}

/// Appends to `acc` each key of `more` it does not hold yet, in order.
pub fn push_new_arrays(acc: &mut Vec<[u8; 32]>, more: &Vec<[u8; 32]>)
    ensures
        array_views(final(acc)@) == push_new(array_views(old(acc)@), array_views(more@)),
{
    let ghost start = array_views(acc@);
    let mut i: usize = 0;
    assert(array_views(more@).subrange(0, 0) =~= Seq::<Seq<u8>>::empty());
    while i < more.len()
        invariant
            i <= more@.len(),
            array_views(acc@) == push_new(start, array_views(more@).subrange(0, i as int)),
        decreases more@.len() - i,
    {
        let k = more[i];
        let present = contains_array(acc, &k);
        let ghost before = acc@;
        if !present {
            acc.push(k);
            assert(array_views(acc@) =~= array_views(before).push(k@));
        }
        proof {
            let sub = array_views(more@).subrange(0, i + 1);
            assert(sub.drop_last() =~= array_views(more@).subrange(0, i as int));
            assert(sub.last() == k@);
        }
        i += 1;
    }
    assert(array_views(more@).subrange(0, more@.len() as int) =~= array_views(more@));
}

/// The text form of a key: `u` followed by the URL-safe base64 of its 39
/// bytes.
pub open spec fn key_text(raw: Seq<u8>) -> Seq<char> {
    seq!['u'] + url_safe_no_pad_encoded(raw)
}

/// Renders a key in its `u`-multibase text form.
pub fn agent_key_string(k: &AgentPubKey) -> (r: String)
    ensures
        r@ == key_text(k.raw@),
        forall|raw: Seq<u8>| #[trigger] key_text(raw) == r@ ==> raw == k.raw@,
{
    let body = encode_url_safe_no_pad(k.raw.as_slice());
    let mut r = String::new();
    push_char(&mut r, 'u');
    r.append(body.as_str());
    assert(r@ =~= seq!['u'] + body@);
    assert forall|raw: Seq<u8>| #[trigger] key_text(raw) == r@ implies raw == k.raw@ by {
        assert(key_text(raw).drop_first() =~= url_safe_no_pad_encoded(raw));
        assert(r@.drop_first() =~= body@);
    }
    r
}

} // verus!
