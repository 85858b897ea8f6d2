use vstd::prelude::*;
use std::collections::HashMap;
use crate::request::{RequestType, verb_bytes, all_request_types};

verus! {

broadcast use vstd::std_specs::hash::group_hash_axioms;

/// The byte that joins a verb and the validation secret.
pub const VERB_SEPARATOR: u8 = 95;

/// The 128-bit name-based identifier (UUID version 5, OID namespace) of a
/// byte string.
pub uninterp spec fn oid_v5_of(name: Seq<u8>) -> u128;

/// Relies on uuid::Uuid::new_v5 with the OID namespace: a SHA-1 name-based
/// UUID, which depends on the name bytes alone.
#[verifier::external_body]
fn oid_v5(name: &[u8]) -> (r: u128)
    ensures
        r == oid_v5_of(name@),
{
    uuid::Uuid::new_v5(&uuid::Uuid::NAMESPACE_OID, name).as_u128()
}

/// The text a verb hash is derived from: the verb, `_`, then the secret.
pub open spec fn verb_key(t: RequestType, secret: Seq<u8>) -> Seq<u8> {
    verb_bytes(t) + seq![VERB_SEPARATOR] + secret
}

/// The hash under which a verb travels on the wire for a given secret.
pub open spec fn verb_hash(t: RequestType, secret: Seq<u8>) -> u128 {
    oid_v5_of(verb_key(t, secret))
}

/// The table built from the verbs `ts`, in order: each hash maps to its
/// request type (a later verb wins should two hashes coincide).
pub open spec fn table_of(ts: Seq<RequestType>, secret: Seq<u8>) -> Map<u128, RequestType>
    decreases ts.len(),
{
    if ts.len() == 0 {
        Map::empty()
    } else {
        table_of(ts.drop_last(), secret).insert(verb_hash(ts.last(), secret), ts.last())
    }
}

/// The validation table of every known verb for a secret.
pub open spec fn verb_table(secret: Seq<u8>) -> Map<u128, RequestType> {
    table_of(all_request_types(), secret)
}

/// The bytes of `verb_key(t, secret)`.
pub fn verb_key_bytes(t: RequestType, secret: &[u8]) -> (r: Vec<u8>)
    ensures
        r@ == verb_key(t, secret@),
{
    let mut r = t.verb();
    r.push(VERB_SEPARATOR);
    let ghost head = r@;
    let mut i: usize = 0;
    while i < secret.len()
        invariant
            i <= secret@.len(),
            head == verb_bytes(t) + seq![VERB_SEPARATOR],
            r@ == head + secret@.subrange(0, i as int),
        decreases secret@.len() - i,
    {
        r.push(secret[i]);
        i = i + 1;
        assert(r@ =~= head + secret@.subrange(0, i as int));
    }
    assert(secret@.subrange(0, secret@.len() as int) =~= secret@);
    r
}

/// The verb hash of one request type under a secret.
pub fn derive_verb_hash(t: RequestType, secret: &[u8]) -> (r: u128)
    ensures
        r == verb_hash(t, secret@),
{
    let key = verb_key_bytes(t, secret);
    oid_v5(key.as_slice())
}

/// Builds the table that maps the hash of each known verb under `secret` to
/// its request type.
pub fn build_verb_table(secret: &[u8]) -> (r: HashMap<u128, RequestType>)
    ensures
        r@ == verb_table(secret@),
{
    let types = RequestType::all();
    let mut table: HashMap<u128, RequestType> = HashMap::new();
    let mut i: usize = 0;
    assert(types@.subrange(0, 0) =~= Seq::<RequestType>::empty());
    while i < types.len()
        invariant
            i <= types@.len(),
            types@ == all_request_types(),
            table@ == table_of(types@.subrange(0, i as int), secret@),
        decreases types@.len() - i,
    {
        let t = types[i];
        let h = derive_verb_hash(t, secret);
        table.insert(h, t);
        assert(types@.subrange(0, i + 1).drop_last() =~= types@.subrange(0, i as int));
        i = i + 1;
    }
    assert(types@.subrange(0, types@.len() as int) =~= types@);
    table
}

/// The same secret always yields the same hash for a verb, and the same
/// table.
pub proof fn lemma_verb_hash_deterministic(t: RequestType, a: Seq<u8>, b: Seq<u8>)
    requires
        a == b,
    ensures
        verb_hash(t, a) == verb_hash(t, b),
        verb_table(a) == verb_table(b),
{
}

/// Every verb's hash is in the table built from a run of verbs that holds
/// it; where no two of those verbs share a hash, it maps to that verb.
pub proof fn lemma_table_of_covers(ts: Seq<RequestType>, secret: Seq<u8>, t: RequestType)
    requires
        ts.contains(t),
    ensures
        table_of(ts, secret).contains_key(verb_hash(t, secret)),
        (forall|i: int, j: int| 0 <= i < j < ts.len() ==> verb_hash(#[trigger] ts[i], secret) != verb_hash(#[trigger] ts[j], secret))
            ==> table_of(ts, secret)[verb_hash(t, secret)] == t,
    decreases ts.len(),
{
    let init = ts.drop_last();
    if ts.last() != t {
        assert(init.contains(t)) by {
            let k = choose|k: int| 0 <= k < ts.len() && ts[k] == t;
            assert(k < ts.len() - 1);
            assert(init[k] == t);
        }
        lemma_table_of_covers(init, secret, t);
        if forall|i: int, j: int| 0 <= i < j < ts.len() ==> verb_hash(#[trigger] ts[i], secret) != verb_hash(#[trigger] ts[j], secret) {
            assert forall|i: int, j: int| 0 <= i < j < init.len() implies verb_hash(#[trigger] init[i], secret) != verb_hash(#[trigger] init[j], secret) by {
                assert(init[i] == ts[i] && init[j] == ts[j]);
            }
            let k = choose|k: int| 0 <= k < init.len() && init[k] == t;
            assert(ts[k] == t);
            assert(verb_hash(ts[k], secret) != verb_hash(ts[ts.len() - 1], secret));
        }
    }
}

/// The validation table holds the hash of every known verb, and maps it to
/// that verb as long as no two verbs share a hash under the secret.
pub proof fn lemma_verb_table_covers(secret: Seq<u8>, t: RequestType)
    ensures
        verb_table(secret).contains_key(verb_hash(t, secret)),
        (forall|i: int, j: int| 0 <= i < j < all_request_types().len()
            ==> verb_hash(#[trigger] all_request_types()[i], secret) != verb_hash(#[trigger] all_request_types()[j], secret))
            ==> verb_table(secret)[verb_hash(t, secret)] == t,
{
    let ts = all_request_types();
    assert(ts.contains(t)) by {
        match t {
            RequestType::Look => assert(ts[0] == t),
            RequestType::Move => assert(ts[1] == t),
            RequestType::Say => assert(ts[2] == t),
            RequestType::Attack => assert(ts[3] == t),
        }
    }
    lemma_table_of_covers(ts, secret, t);
}

} // verus!
