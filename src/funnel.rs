use vstd::prelude::*;
use std::collections::HashMap;
use crate::request::{Request, RequestView};
use crate::request_cache::{RequestCache, add_spec, requests_view};

verus! {

/// One flushed window of requests, numbered in the order of flushing.
pub struct Batch {
    pub seq: u64,
    pub requests: HashMap<u128, Request>,
}

/// The mathematical value of a batch.
pub struct BatchView {
    pub seq: nat,
    pub requests: Map<u128, RequestView>,
}

impl View for Batch {
    type V = BatchView;

    open spec fn view(&self) -> BatchView {
        BatchView { seq: self.seq as nat, requests: requests_view(self.requests@) }
    }
}

/// The state of a funnel. Times are in microseconds.
pub struct FunnelView {
    pub requests: Map<u128, RequestView>,
    pub capacity: nat,
    pub interval: nat,
    pub window_start: nat,
    pub next_seq: nat,
    pub halted: bool,
}

/// What reaches a funnel.
pub enum FunnelEvent {
    /// A validated request arrived.
    Arrive(RequestView),
    /// The clock was read.
    Tick(nat),
    /// The last batch could not be handed to the session.
    SendFailed,
}

/// Whether the window that began at `start` has run its course at `now`.
pub open spec fn window_over(v: FunnelView, now: nat) -> bool {
    now >= v.window_start && now - v.window_start >= v.interval
}

/// A request arrives: a running funnel adds it to its cache.
pub open spec fn arrive_spec(v: FunnelView, req: RequestView) -> FunnelView {
    if v.halted {
        v
    } else {
        FunnelView { requests: add_spec(v.requests, v.capacity, req), ..v }
    }
}

/// The clock reads `now`: once the window is over, a running funnel hands
/// out its contents as the next batch and starts a new, empty window.
pub open spec fn tick_spec(v: FunnelView, now: nat) -> (FunnelView, Option<BatchView>) {
    if v.halted || !window_over(v, now) {
        (v, None)
    } else {
        (
            FunnelView { requests: Map::empty(), window_start: now, next_seq: v.next_seq + 1, ..v },
            Some(BatchView { seq: v.next_seq, requests: v.requests }),
        )
    }
}

/// One event, and the batch it hands out, if any.
pub open spec fn step_spec(v: FunnelView, e: FunnelEvent) -> (FunnelView, Option<BatchView>) {
    match e {
        FunnelEvent::Arrive(req) => (arrive_spec(v, req), None),
        FunnelEvent::Tick(now) => tick_spec(v, now),
        FunnelEvent::SendFailed => (FunnelView { halted: true, ..v }, None),
    }
}

/// The state after a run of events, and the batches it handed out, in order.
pub open spec fn run_spec(v: FunnelView, es: Seq<FunnelEvent>) -> (FunnelView, Seq<BatchView>)
    decreases es.len(),
{
    if es.len() == 0 {
        (v, Seq::empty())
    } else {
        let (v1, out) = step_spec(v, es[0]);
        let (vf, rest) = run_spec(v1, es.drop_first());
        match out {
            Some(b) => (vf, seq![b] + rest),
            None => (vf, rest),
        }
    }
}

/// Drains validated requests into a cache and flushes it, one window at a
/// time, as numbered batches.
pub struct Funnel {
    cache: RequestCache,
    interval_us: u64,
    window_start_us: u64,
    next_seq: u64,
    halted: bool,
}

impl View for Funnel {
    type V = FunnelView;

    closed spec fn view(&self) -> FunnelView {
        FunnelView {
            requests: self.cache.contents(),
            capacity: self.cache.capacity(),
            interval: self.interval_us as nat,
            window_start: self.window_start_us as nat,
            next_seq: self.next_seq as nat,
            halted: self.halted,
        }
    }
}

impl Funnel {
    pub closed spec fn wf(&self) -> bool {
        self.cache.wf()
    }

    /// A funnel whose first window opens at `now_us`.
    pub fn new(debug_mode: bool, capacity: u32, interval_us: u64, now_us: u64) -> (r: Funnel)
        ensures
            r.wf(),
            r@ == (FunnelView {
                requests: Map::empty(),
                capacity: capacity as nat,
                interval: interval_us as nat,
                window_start: now_us as nat,
                next_seq: 0,
                halted: false,
            }),
    {
        Funnel {
            cache: RequestCache::new(debug_mode, capacity),
            interval_us,
            window_start_us: now_us,
            next_seq: 0,
            halted: false,
        }
    }

    /// The number the next batch will carry.
    pub fn next_seq(&self) -> (r: u64)
        ensures
            r == self@.next_seq,
    {
        self.next_seq
    }

    /// Whether the funnel has stopped for want of a consumer.
    pub fn is_halted(&self) -> (r: bool)
        ensures
            r == self@.halted,
    {
        self.halted
    }

    /// A validated request arrives.
    pub fn on_request(&mut self, req: Request)
        requires
            old(self).wf(),
        ensures
            final(self).wf(),
            final(self)@ == arrive_spec(old(self)@, req@),
    {
        if !self.halted {
            self.cache.add(req);
        }
    }

    /// The clock reads `now_us`; returns the batch to hand to the session,
    /// once the current window is over.
    pub fn on_tick(&mut self, now_us: u64) -> (r: Option<Batch>)
        requires
            old(self).wf(),
            old(self)@.next_seq < u64::MAX,
        ensures
            final(self).wf(),
            (final(self)@, match r {
                Some(b) => Some(b@),
                None => None,
            }) == tick_spec(old(self)@, now_us as nat),
    {
        if self.halted || now_us < self.window_start_us || now_us - self.window_start_us < self.interval_us {
            return None;
        }
        let batch = Batch { seq: self.next_seq, requests: self.cache.snapshot() };
        self.cache.clear();
        self.window_start_us = now_us;
        self.next_seq = self.next_seq + 1;
        Some(batch)
    }

    /// A batch could not be handed to the session: nothing more is taken in
    /// or handed out.
    pub fn on_send_failed(&mut self)
        requires
            old(self).wf(),
        ensures
            final(self).wf(),
            final(self)@ == step_spec(old(self)@, FunnelEvent::SendFailed).0,
    {
        self.halted = true;
    }
}

/// Batches leave a funnel numbered one after another from its next number,
/// so they can be told apart and put in order by their numbers.
pub proof fn lemma_batches_numbered_in_order(v: FunnelView, es: Seq<FunnelEvent>)
    ensures
        run_spec(v, es).0.next_seq == v.next_seq + run_spec(v, es).1.len(),
        forall|k: int| 0 <= k < run_spec(v, es).1.len() ==> #[trigger] run_spec(v, es).1[k].seq == v.next_seq + k,
    decreases es.len(),
{
    if es.len() > 0 {
        let (v1, out) = step_spec(v, es[0]);
        lemma_batches_numbered_in_order(v1, es.drop_first());
        let rest = run_spec(v1, es.drop_first()).1;
        match out {
            Some(b) => {
                assert forall|k: int| 0 <= k < run_spec(v, es).1.len() implies #[trigger] run_spec(v, es).1[k].seq == v.next_seq + k by {
                    if k > 0 {
                        assert(run_spec(v, es).1[k] == rest[k - 1]);
                    }
                }
            },
            None => {},
        }
    }
}

} // verus!
