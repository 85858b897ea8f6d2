use vstd::prelude::*;
use std::collections::HashMap;
use crate::request::{Request, RequestView};

verus! {

broadcast use vstd::std_specs::hash::group_hash_axioms;

/// The id-keyed view of a set of requests.
pub open spec fn requests_view(m: Map<u128, Request>) -> Map<u128, RequestView> {
    m.map_values(|r: Request| r@)
}

/// What `add` makes of the cache contents `m`, under capacity `cap`: a
/// full cache (`cap` entries or more) is emptied first; then the request
/// goes in unless its id is already there.
pub open spec fn add_spec(m: Map<u128, RequestView>, cap: nat, req: RequestView) -> Map<u128, RequestView> {
    let base = if m.len() >= cap { Map::empty() } else { m };
    if base.contains_key(req.id) {
        base
    } else {
        base.insert(req.id, req)
    }
}

/// A bounded, deduplicating accumulator of requests, keyed by request id.
pub struct RequestCache {
    pub requests: HashMap<u128, Request>,
    show_debug: bool,
    max_size: u32,
}

impl RequestCache {
    /// The contents, by request id.
    pub closed spec fn contents(&self) -> Map<u128, RequestView> {
        requests_view(self.requests@)
    }

    /// The capacity this cache was made with.
    pub closed spec fn capacity(&self) -> nat {
        self.max_size as nat
    }

    /// Whether duplicates are reported.
    pub closed spec fn debug(&self) -> bool {
        self.show_debug
    }

    /// Every entry is stored under its own id.
    pub closed spec fn wf(&self) -> bool {
        forall|k: u128| #[trigger] self.requests@.contains_key(k) ==> self.requests@[k].id == k
    }

    pub fn new(debug_mode: bool, capacity: u32) -> (r: RequestCache)
        ensures
            r.wf(),
            r.contents() == Map::<u128, RequestView>::empty(),
            r.capacity() == capacity,
            r.debug() == debug_mode,
    {
        let r = RequestCache { requests: HashMap::new(), show_debug: debug_mode, max_size: capacity };
        assert(r.contents() =~= Map::<u128, RequestView>::empty());
        r
    }

    /// Whether duplicates are reported.
    pub fn show_debug(&self) -> (r: bool)
        ensures
            r == self.debug(),
    {
        self.show_debug
    }

    /// The number of requests held.
    pub fn len(&self) -> (r: usize)
        ensures
            r == self.contents().len(),
    {
        proof {
            lemma_requests_view_len(self.requests@);
        }
        self.requests.len()
    }

    /// Whether a request with this id is held.
    pub fn contains(&self, id: u128) -> (r: bool)
        ensures
            r == self.contents().contains_key(id),
    {
        self.requests.contains_key(&id)
    }

    fn should_clear(&self) -> (r: bool)
        ensures
            r == (self.contents().len() >= self.capacity()),
    {
        proof {
            lemma_requests_view_len(self.requests@);
        }
        self.requests.len() >= self.max_size as usize
    }

    /// Admits one request: a full cache is emptied first, and a request
    /// whose id is already held is dropped.
    pub fn add(&mut self, req: Request)
        requires
            old(self).wf(),
        ensures
            final(self).wf(),
            final(self).capacity() == old(self).capacity(),
            final(self).debug() == old(self).debug(),
            final(self).contents() == add_spec(old(self).contents(), old(self).capacity(), req@),
    {
        let ghost before = self.contents();
        let full = self.should_clear();
        if full {
            self.requests.clear();
        }
        let ghost base = self.contents();
        assert(base =~= (if before.len() >= self.capacity() { Map::empty() } else { before }));
        if !self.requests.contains_key(&req.id) {
            let ghost v = req@;
            self.requests.insert(req.id, req);
            assert(self.contents() =~= base.insert(v.id, v));
        }
    }

    /// Empties the cache.
    pub fn clear(&mut self)
        ensures
            final(self).wf(),
            final(self).contents() == Map::<u128, RequestView>::empty(),
            final(self).capacity() == old(self).capacity(),
            final(self).debug() == old(self).debug(),
    {
        self.requests.clear();
        assert(self.contents() =~= Map::<u128, RequestView>::empty());
    }

    /// A copy of the contents.
    pub fn snapshot(&self) -> (r: HashMap<u128, Request>)
        ensures
            requests_view(r@) == self.contents(),
    {
        self.requests.clone()
    }
}

/// Viewing each request does not change how many there are.
pub proof fn lemma_requests_view_len(m: Map<u128, Request>)
    requires
        m.dom().finite(),
    ensures
        requests_view(m).len() == m.len(),
        requests_view(m).dom() == m.dom(),
{
    assert(requests_view(m).dom() =~= m.dom());
}

/// Adding a request whose id is already held changes nothing, unless the
/// cache was full, in which case it holds that id alone; either way the id
/// is held exactly once.
pub proof fn lemma_add_same_id_twice(m: Map<u128, RequestView>, cap: nat, a: RequestView, b: RequestView)
    requires
        m.dom().finite(),
        a.id == b.id,
    ensures
        add_spec(add_spec(m, cap, a), cap, b).contains_key(a.id),
        add_spec(m, cap, a).len() < cap ==> add_spec(add_spec(m, cap, a), cap, b) == add_spec(m, cap, a),
        add_spec(m, cap, a).len() >= cap ==> add_spec(add_spec(m, cap, a), cap, b) == map![b.id => b],
{
    let once = add_spec(m, cap, a);
    if once.len() >= cap {
        assert(add_spec(once, cap, b) =~= map![b.id => b]);
    }
}

/// A request added to a cache that holds `cap` entries or more empties it
/// first, and is then its only entry.
pub proof fn lemma_full_cache_clears(m: Map<u128, RequestView>, cap: nat, req: RequestView)
    requires
        m.len() >= cap,
    ensures
        add_spec(m, cap, req) == map![req.id => req],
        add_spec(m, cap, req).len() == 1,
{
    assert(add_spec(m, cap, req) =~= map![req.id => req]);
    assert(map![req.id => req].dom() =~= set![req.id]);
}

} // verus!
