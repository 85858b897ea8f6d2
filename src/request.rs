use vstd::prelude::*;
use std::collections::HashMap;

verus! {

broadcast use vstd::std_specs::hash::group_hash_axioms;

/// The closed set of operations a client may ask for.
#[derive(Clone, Copy, Debug, PartialEq, Eq, Structural, Hash)]
pub enum RequestType {
    Look,
    Move,
    Say,
    Attack,
}

/// The protocol verb of each request type, as ASCII bytes: "look",
/// "move", "say" and "attack".
pub open spec fn verb_bytes(t: RequestType) -> Seq<u8> {
    match t {
        RequestType::Look => seq![108u8, 111, 111, 107],
        RequestType::Move => seq![109u8, 111, 118, 101],
        RequestType::Say => seq![115u8, 97, 121],
        RequestType::Attack => seq![97u8, 116, 116, 97, 99, 107],
    }
}

/// Every request type, in the order in which the verb table is built.
pub open spec fn all_request_types() -> Seq<RequestType> {
    seq![RequestType::Look, RequestType::Move, RequestType::Say, RequestType::Attack]
}

impl RequestType {
    /// The protocol verb of this request type.
    pub fn verb(&self) -> (r: Vec<u8>)
        ensures
            r@ == verb_bytes(*self),
    {
        match self {
            RequestType::Look => vec![108u8, 111, 111, 107],
            RequestType::Move => vec![109u8, 111, 118, 101],
            RequestType::Say => vec![115u8, 97, 121],
            RequestType::Attack => vec![97u8, 116, 116, 97, 99, 107],
        }
    }

    /// Every request type.
    pub fn all() -> (r: Vec<RequestType>)
        ensures
            r@ == all_request_types(),
    {
        let r = vec![RequestType::Look, RequestType::Move, RequestType::Say, RequestType::Attack];
        assert(r@ =~= all_request_types());
        r
    }
}

/// The byte that ends each of the first two fields of a message.
pub const FIELD_END: u8 = 10;

/// One validated unit of client work.
#[derive(Clone, Debug)]
pub struct Request {
    /// The client-supplied identifier, unique per request.
    pub id: u128,
    /// The operation asked for, resolved through the verb table.
    pub req_type: RequestType,
    /// The opaque payload.
    pub contents: Vec<u8>,
}

/// The mathematical value of a request.
pub struct RequestView {
    pub id: u128,
    pub req_type: RequestType,
    pub contents: Seq<u8>,
}

impl View for Request {
    type V = RequestView;

    open spec fn view(&self) -> RequestView {
        RequestView { id: self.id, req_type: self.req_type, contents: self.contents@ }
    }
}

/// The 128-bit value of a textual UUID, if the text is one.
pub uninterp spec fn uuid_text_value(text: Seq<u8>) -> Option<u128>;

/// Relies on uuid::Uuid::try_parse_ascii: it accepts the simple, hyphenated,
/// braced and URN forms, which are 32, 36, 38 and 45 bytes long, and nothing
/// of another length.
#[verifier::external_body]
fn parse_uuid(text: &[u8]) -> (r: Option<u128>)
    ensures
        r == uuid_text_value(text@),
        !(text@.len() == 32 || text@.len() == 36 || text@.len() == 38 || text@.len() == 45)
            ==> r is None,
{
    uuid::Uuid::try_parse_ascii(text).ok().map(|u| u.as_u128())
}

/// The first position at or after `from` where `s` holds `b`.
pub open spec fn find_from(s: Seq<u8>, b: u8, from: int) -> Option<int>
    decreases s.len() - from,
{
    if from < 0 || from >= s.len() {
        None
    } else if s[from] == b {
        Some(from)
    } else {
        find_from(s, b, from + 1)
    }
}

/// The three fields of a message: the client id text, the verb hash text
/// and the payload. The first two each end at a `FIELD_END` byte; the
/// payload is all that follows, and may hold that byte itself.
pub open spec fn message_fields(m: Seq<u8>) -> Option<(Seq<u8>, Seq<u8>, Seq<u8>)> {
    match find_from(m, FIELD_END, 0) {
        None => None,
        Some(i) => match find_from(m, FIELD_END, i + 1) {
            None => None,
            Some(j) => Some((m.subrange(0, i), m.subrange(i + 1, j), m.subrange(j + 1, m.len() as int))),
        },
    }
}

/// What a connection's bytes amount to: a request when the message has its
/// three fields, both identifiers parse, and the verb hash is in the table;
/// otherwise nothing.
pub open spec fn parse_request(m: Seq<u8>, table: Map<u128, RequestType>) -> Option<RequestView> {
    match message_fields(m) {
        None => None,
        Some((id_text, hash_text, payload)) => match (uuid_text_value(id_text), uuid_text_value(hash_text)) {
            (Some(id), Some(h)) => if table.contains_key(h) {
                Some(RequestView { id, req_type: table[h], contents: payload })
            } else {
                None
            },
            _ => None,
        },
    }
}

/// The first position at or after `from` where `s` holds `b`.
fn find_byte(s: &[u8], b: u8, from: usize) -> (r: Option<usize>)
    ensures
        r is None <==> find_from(s@, b, from as int) is None,
        r matches Some(i) ==> find_from(s@, b, from as int) == Some(i as int),
        r matches Some(i) ==> from <= i < s@.len() && s@[i as int] == b,
{
    let mut i = from;
    while i < s.len()
        invariant
            from <= i,
            find_from(s@, b, from as int) == find_from(s@, b, i as int),
        decreases s@.len() - i,
    {
        if s[i] == b {
            return Some(i);
        }
        i = i + 1;
    }
    None
}

/// The bytes of `s` from `lo` up to `hi`.
fn copy_range(s: &[u8], lo: usize, hi: usize) -> (r: Vec<u8>)
    requires
        lo <= hi <= s@.len(),
    ensures
        r@ == s@.subrange(lo as int, hi as int),
{
    let mut r: Vec<u8> = Vec::new();
    let mut i = lo;
    while i < hi
        invariant
            lo <= i <= hi,
            hi <= s@.len(),
            r@ == s@.subrange(lo as int, i as int),
        decreases hi - i,
    {
        r.push(s[i]);
        i = i + 1;
        assert(r@ =~= s@.subrange(lo as int, i as int));
    }
    r
}

impl Request {
    /// Reads the request one connection carried: `message` is everything the
    /// peer wrote. Unreadable messages and unknown verb hashes give `None`.
    pub fn new(message: &[u8], table: &HashMap<u128, RequestType>) -> (r: Option<Request>)
        ensures
            match parse_request(message@, table@) {
                None => r is None,
                Some(v) => r is Some && r->Some_0@ == v,
            },
    {
        let n = message.len();
        let i = match find_byte(message, FIELD_END, 0) {
            None => return None,
            Some(i) => i,
        };
        let j = match find_byte(message, FIELD_END, i + 1) {
            None => return None,
            Some(j) => j,
        };
        let id_text = copy_range(message, 0, i);
        let hash_text = copy_range(message, i + 1, j);
        let id = match parse_uuid(id_text.as_slice()) {
            None => return None,
            Some(id) => id,
        };
        let h = match parse_uuid(hash_text.as_slice()) {
            None => return None,
            Some(h) => h,
        };
        match table.get(&h) {
            None => None,
            Some(t) => {
                let contents = copy_range(message, j + 1, n);
                Some(Request { id, req_type: *t, contents })
            },
        }
    }
}

/// A message whose verb hash is not in the table yields no request.
pub proof fn lemma_unknown_hash_rejected(m: Seq<u8>, table: Map<u128, RequestType>, h: u128)
    requires
        message_fields(m) matches Some((_, hash_text, _)) && uuid_text_value(hash_text) == Some(h),
        !table.contains_key(h),
    ensures
        parse_request(m, table) is None,
{
}

/// The requests that a run of connections yields, in order: one for each
/// message that parses, nothing for the others.
pub open spec fn admitted(ms: Seq<Seq<u8>>, table: Map<u128, RequestType>) -> Seq<RequestView>
    decreases ms.len(),
{
    if ms.len() == 0 {
        Seq::empty()
    } else {
        match parse_request(ms[0], table) {
            Some(r) => seq![r] + admitted(ms.drop_first(), table),
            None => admitted(ms.drop_first(), table),
        }
    }
}

/// What two runs of connections yield together is what each yields alone.
pub proof fn lemma_admitted_concat(a: Seq<Seq<u8>>, b: Seq<Seq<u8>>, table: Map<u128, RequestType>)
    ensures
        admitted(a + b, table) == admitted(a, table) + admitted(b, table),
    decreases a.len(),
{
    if a.len() == 0 {
        assert(a + b =~= b);
        assert(admitted(a, table) + admitted(b, table) =~= admitted(b, table));
    } else {
        assert((a + b).drop_first() =~= a.drop_first() + b);
        assert((a + b)[0] == a[0]);
        lemma_admitted_concat(a.drop_first(), b, table);
        match parse_request(a[0], table) {
            Some(r) => {
                assert(seq![r] + (admitted(a.drop_first(), table) + admitted(b, table))
                    =~= (seq![r] + admitted(a.drop_first(), table)) + admitted(b, table));
            },
            None => {},
        }
    }
}

/// Connections that yield nothing yield nothing together.
pub proof fn lemma_admitted_none(bad: Seq<Seq<u8>>, table: Map<u128, RequestType>)
    requires
        forall|k: int| 0 <= k < bad.len() ==> parse_request(#[trigger] bad[k], table) is None,
    ensures
        admitted(bad, table) == Seq::<RequestView>::empty(),
    decreases bad.len(),
{
    if bad.len() > 0 {
        assert forall|k: int| 0 <= k < bad.drop_first().len() implies parse_request(#[trigger] bad.drop_first()[k], table) is None by {
            assert(bad.drop_first()[k] == bad[k + 1]);
        }
        lemma_admitted_none(bad.drop_first(), table);
    }
}

/// Malformed or unauthenticated connections, wherever they fall among
/// others, change nothing of what the others yield.
pub proof fn lemma_bad_connections_isolated(
    before: Seq<Seq<u8>>,
    bad: Seq<Seq<u8>>,
    after: Seq<Seq<u8>>,
    table: Map<u128, RequestType>,
)
    requires
        forall|k: int| 0 <= k < bad.len() ==> parse_request(#[trigger] bad[k], table) is None,
    ensures
        admitted(before + bad + after, table) == admitted(before + after, table),
{
    lemma_admitted_none(bad, table);
    lemma_admitted_concat(before + bad, after, table);
    lemma_admitted_concat(before, bad, table);
    lemma_admitted_concat(before, after, table);
    assert(admitted(before, table) + Seq::<RequestView>::empty() =~= admitted(before, table));
}

/// Well-formed connections each yield their own request, so `n` of them
/// yield `n` requests.
pub proof fn lemma_good_connections_counted(good: Seq<Seq<u8>>, table: Map<u128, RequestType>)
    requires
        forall|k: int| 0 <= k < good.len() ==> parse_request(#[trigger] good[k], table) is Some,
    ensures
        admitted(good, table).len() == good.len(),
    decreases good.len(),
{
    if good.len() > 0 {
        assert forall|k: int| 0 <= k < good.drop_first().len() implies parse_request(#[trigger] good.drop_first()[k], table) is Some by {
            assert(good.drop_first()[k] == good[k + 1]);
        }
        lemma_good_connections_counted(good.drop_first(), table);
    }
}

} // verus!
