//! The URL frontier: a FIFO work queue of pending URLs, with an optional
//! politeness delay recorded at construction. The queue itself is
//! crossbeam's unbounded `SegQueue`; the caller that drives a crawl applies
//! the delay before each dequeue attempt.

use vstd::prelude::*;

verus! {

#[verifier::external_type_specification]
#[verifier::external_body]
#[verifier::reject_recursive_types(T)]
pub struct ExSegQueue<T>(crossbeam_queue::SegQueue<T>);

/// The pending URLs held by a queue, head first.
pub uninterp spec fn queue_items(q: crossbeam_queue::SegQueue<String>) -> Seq<Seq<char>>;

/// Relies on crossbeam_queue::SegQueue::new: a freshly created queue is
/// empty.
#[verifier::external_body]
fn seg_new() -> (q: crossbeam_queue::SegQueue<String>)
    ensures
        queue_items(q) == Seq::<Seq<char>>::empty(),
{
    crossbeam_queue::SegQueue::new()
}

/// Relies on crossbeam_queue::SegQueue::push: appends the value at the
/// tail of the queue.
#[verifier::external_body]
fn seg_push(q: &mut crossbeam_queue::SegQueue<String>, value: String)
    ensures
        queue_items(*final(q)) == queue_items(*old(q)).push(value@),
{
    q.push(value);
}

/// Relies on crossbeam_queue::SegQueue::pop: removes and returns the value
/// at the head of the queue, or returns nothing when the queue is empty.
#[verifier::external_body]
fn seg_pop(q: &mut crossbeam_queue::SegQueue<String>) -> (r: Option<String>)
    ensures
        match r {
            None => queue_items(*old(q)).len() == 0 && queue_items(*final(q)) == queue_items(
                *old(q),
            ),
            Some(v) => queue_items(*old(q)).len() > 0 && v@ == queue_items(*old(q))[0]
                && queue_items(*final(q)) == queue_items(*old(q)).drop_first(),
        },
{
    q.pop()
}

/// Mathematical model of a frontier: the pending URLs in FIFO order, and
/// the politeness delay in seconds (none when disabled).
pub struct FrontierModel {
    pub pending: Seq<Seq<char>>,
    pub delay_s: Option<u64>,
}

/// Removing the head of the pending queue. The delay never changes.
pub trait Dequeue: View<V = FrontierModel> {
    fn dequeue(&mut self) -> (r: Option<String>)
        ensures
            final(self)@.delay_s == old(self)@.delay_s,
            match r {
                None => {
                    &&& old(self)@.pending.len() == 0
                    &&& final(self)@.pending == old(self)@.pending
                },
                Some(v) => {
                    &&& old(self)@.pending.len() > 0
                    &&& v@ == old(self)@.pending[0]
                    &&& final(self)@.pending == old(self)@.pending.drop_first()
                },
            },
    ;
}

/// Appending a URL at the tail of the pending queue. Never fails and never
/// drops an item; the delay never changes.
pub trait Enqueue: View<V = FrontierModel> {
    fn enqueue(&mut self, value: String)
        ensures
            final(self)@.delay_s == old(self)@.delay_s,
            final(self)@.pending == old(self)@.pending.push(value@),
    ;
}

/// A work queue that both sides of the crawl loop share.
pub trait Queue: Enqueue + Dequeue {}

/// The frontier: pending URLs in FIFO order plus the configured politeness
/// delay.
pub struct URLFrontier {
    queue: crossbeam_queue::SegQueue<String>,
    delay_s: Option<u64>,
}

impl View for URLFrontier {
    type V = FrontierModel;

    closed spec fn view(&self) -> FrontierModel {
        FrontierModel { pending: queue_items(self.queue), delay_s: self.delay_s }
    }
}

impl URLFrontier {
    /// The politeness delay in seconds this frontier was built with, or
    /// nothing when delays are disabled.
    pub fn delay(&self) -> (r: Option<u64>)
        ensures
            r == self@.delay_s,
    {
        self.delay_s
    }
}

impl Queue for URLFrontier {

}

impl Dequeue for URLFrontier {
    fn dequeue(&mut self) -> (r: Option<String>) {
        seg_pop(&mut self.queue)
    }
}

impl Enqueue for URLFrontier {
    fn enqueue(&mut self, value: String) {
        seg_push(&mut self.queue, value);
    }
}

/// Builds a frontier, optionally seeded with initial URLs and a politeness
/// delay.
pub struct URLFrontierBuilder {
    queue: crossbeam_queue::SegQueue<String>,
    delay_s: Option<u64>,
}

impl View for URLFrontierBuilder {
    type V = FrontierModel;

    closed spec fn view(&self) -> FrontierModel {
        FrontierModel { pending: queue_items(self.queue), delay_s: self.delay_s }
    }
}

impl URLFrontierBuilder {
    pub fn new() -> (b: URLFrontierBuilder)
        ensures
            b@.pending == Seq::<Seq<char>>::empty(),
            b@.delay_s is None,
    {
        URLFrontierBuilder { queue: seg_new(), delay_s: None }
    }

    /// Seeds the queue with one more URL at the tail.
    pub fn value(self, value: String) -> (b: URLFrontierBuilder)
        ensures
            b@.pending == self@.pending.push(value@),
            b@.delay_s == self@.delay_s,
    {
        let mut b = self;
        seg_push(&mut b.queue, value);
        b
    }

    /// Sets the politeness delay; zero disables the wait and leaves any
    /// previously set delay in place.
    pub fn delay_s(self, delay_s: u64) -> (b: URLFrontierBuilder)
        ensures
            b@.pending == self@.pending,
            b@.delay_s == if delay_s > 0 {
                Some(delay_s)
            } else {
                self@.delay_s
            },
    {
        let mut b = self;
        if delay_s > 0 {
            b.delay_s = Some(delay_s);
        }
        b
    }

    pub fn build(self) -> (f: URLFrontier)
        ensures
            f@.pending == self@.pending,
            f@.delay_s == self@.delay_s,
    {
        URLFrontier { queue: self.queue, delay_s: self.delay_s }
    }
}

} // verus!
