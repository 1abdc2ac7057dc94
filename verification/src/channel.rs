//! The paint channel: a concurrent many-producer/single-consumer queue of
//! paint instructions, provided by crossbeam's `SegQueue`. Delivery is
//! unordered, so the contents are modelled as a multiset; the pipeline
//! never assumes any order between instructions.

use vstd::prelude::*;
use vstd::multiset::Multiset;

use crossbeam::queue::SegQueue;

use crate::pixel::Paint;

verus! {

#[verifier::external_type_specification]
#[verifier::external_body]
#[verifier::reject_recursive_types(T)]
pub struct ExSegQueue<T>(SegQueue<T>);

/// The multiset of paint instructions currently queued: pushed but not yet
/// popped. Delivery order is deliberately absent from this model.
pub uninterp spec fn channel_contents(q: SegQueue<Paint>) -> Multiset<Paint>;

/// Relies on crossbeam's `SegQueue::new`: creates an empty unbounded queue.
#[verifier::external_body]
pub(crate) fn channel_new() -> (q: SegQueue<Paint>)
    ensures
        channel_contents(q) == Multiset::<Paint>::empty(),
{
    SegQueue::new()
}

/// Relies on crossbeam's `SegQueue::push`: adds one element to the queue
/// without blocking and without failing.
#[verifier::external_body]
pub(crate) fn channel_push(q: &mut SegQueue<Paint>, p: Paint)
    ensures
        channel_contents(*final(q)) == channel_contents(*old(q)).insert(p),
{
    q.push(p);
}

/// Relies on crossbeam's `SegQueue::pop`: removes one queued element and
/// returns it, or returns `None` exactly when the queue is empty.
#[verifier::external_body]
pub(crate) fn channel_pop(q: &mut SegQueue<Paint>) -> (r: Option<Paint>)
    ensures
        match r {
            Some(p) => channel_contents(*old(q)).count(p) > 0 && channel_contents(*final(q))
                == channel_contents(*old(q)).remove(p),
            None => channel_contents(*final(q)) == channel_contents(*old(q)) && channel_contents(*old(q))
                == Multiset::<Paint>::empty(),
        },
{
    q.pop()
}

} // verus!
