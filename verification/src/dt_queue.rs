use vstd::prelude::*;

use crate::dt_data::{item_size, DtItem};

verus! {

#[verifier::external_type_specification]
#[verifier::external_body]
#[verifier::reject_recursive_types(T)]
pub struct ExConcurrentQueue<T>(concurrent_queue::ConcurrentQueue<T>);

/// The items the underlying queue holds, oldest first.
pub uninterp spec fn queue_items(q: &concurrent_queue::ConcurrentQueue<DtItem>) -> Seq<DtItem>;

/// The item capacity the underlying queue was created with; nothing when
/// it is unbounded.
pub uninterp spec fn queue_cap(q: &concurrent_queue::ConcurrentQueue<DtItem>) -> Option<usize>;

/// Whether the underlying queue has been closed. This crate never closes
/// the queues it creates.
pub uninterp spec fn queue_closed(q: &concurrent_queue::ConcurrentQueue<DtItem>) -> bool;

/// Relies on concurrent_queue::ConcurrentQueue::bounded: a fresh bounded
/// queue is empty, open, and holds at most `cap` items. `bounded` panics
/// on a zero capacity, so that input is excluded.
#[verifier::external_body]
fn cq_bounded(cap: usize) -> (q: concurrent_queue::ConcurrentQueue<DtItem>)
    requires
        cap >= 1,
    ensures
        queue_items(&q) == Seq::<DtItem>::empty(),
        queue_cap(&q) == Some(cap),
        !queue_closed(&q),
{
    concurrent_queue::ConcurrentQueue::bounded(cap)
}

/// Relies on concurrent_queue::ConcurrentQueue::unbounded: a fresh
/// unbounded queue is empty and open.
#[verifier::external_body]
fn cq_unbounded() -> (q: concurrent_queue::ConcurrentQueue<DtItem>)
    ensures
        queue_items(&q) == Seq::<DtItem>::empty(),
        queue_cap(&q) == Option::<usize>::None,
        !queue_closed(&q),
{
    concurrent_queue::ConcurrentQueue::unbounded()
}

/// Relies on concurrent_queue::ConcurrentQueue::push: on success the item
/// is appended at the back; on a full queue the item comes back unchanged
/// and so do the contents. The closed case cannot arise for an open queue.
#[verifier::external_body]
fn cq_push(q: &mut concurrent_queue::ConcurrentQueue<DtItem>, item: DtItem) -> (r: Result<
    (),
    DtItem,
>)
    requires
        !queue_closed(old(q)),
    ensures
        queue_cap(final(q)) == queue_cap(old(q)),
        !queue_closed(final(q)),
        match r {
            Ok(()) => queue_items(final(q)) == queue_items(old(q)).push(item) && (queue_cap(
                old(q),
            ) matches Some(c) ==> queue_items(old(q)).len() < c),
            Err(back) => back == item && queue_items(final(q)) == queue_items(old(q)) && (queue_cap(
                old(q),
            ) matches Some(c) && queue_items(old(q)).len() == c),
        },
{
    match q.push(item) {
        Ok(()) => Ok(()),
        Err(concurrent_queue::PushError::Full(v)) => Err(v),
        Err(concurrent_queue::PushError::Closed(v)) => Err(v),
    }
}

/// Relies on concurrent_queue::ConcurrentQueue::pop: returns the oldest
/// item, or nothing when the queue is empty.
#[verifier::external_body]
fn cq_pop(q: &mut concurrent_queue::ConcurrentQueue<DtItem>) -> (r: Option<DtItem>)
    requires
        !queue_closed(old(q)),
    ensures
        queue_cap(final(q)) == queue_cap(old(q)),
        !queue_closed(final(q)),
        match r {
            Some(item) => queue_items(old(q)).len() > 0 && item == queue_items(old(q))[0]
                && queue_items(final(q)) == queue_items(old(q)).skip(1),
            None => queue_items(old(q)).len() == 0 && queue_items(final(q)) == queue_items(old(q)),
        },
{
    match q.pop() {
        Ok(v) => Some(v),
        Err(_) => None,
    }
}

/// Relies on concurrent_queue::ConcurrentQueue::len: the number of items
/// in the queue.
#[verifier::external_body]
fn cq_len(q: &concurrent_queue::ConcurrentQueue<DtItem>) -> (r: usize)
    ensures
        r == queue_items(q).len(),
{
    q.len()
}

/// The exact byte cost of a sequence of queued items.
pub open spec fn items_bytes(s: Seq<DtItem>) -> nat
    decreases s.len(),
{
    if s.len() == 0 {
        0
    } else {
        item_size(s[0]) + items_bytes(s.skip(1))
    }
}

pub proof fn lemma_items_bytes_push(s: Seq<DtItem>, x: DtItem)
    ensures
        items_bytes(s.push(x)) == items_bytes(s) + item_size(x),
    decreases s.len(),
{
    if s.len() == 0 {
        assert(s.push(x)[0] == x);
        assert(s.push(x).skip(1) =~= Seq::<DtItem>::empty());
        assert(items_bytes(s.push(x)) == item_size(x) + items_bytes(s.push(x).skip(1)));
    } else {
        assert(s.push(x)[0] == s[0]);
        assert(s.push(x).skip(1) =~= s.skip(1).push(x));
        lemma_items_bytes_push(s.skip(1), x);
    }
}

/// The bounded transfer queue between the extractor and the sinker side:
/// at most `item_cap` items (when bounded) and at most `byte_cap` bytes
/// (when `byte_cap` is not zero). Its view is the sequence of items it
/// holds, oldest first.
pub struct DtQueue {
    inner: concurrent_queue::ConcurrentQueue<DtItem>,
    max_bytes: u64,
    cur_bytes: u64,
}

impl View for DtQueue {
    type V = Seq<DtItem>;

    closed spec fn view(&self) -> Seq<DtItem> {
        queue_items(&self.inner)
    }
}

impl DtQueue {
    /// The queue invariant: the queue is open and the byte counter is the
    /// exact byte cost of the contents whenever bytes are bounded.
    pub closed spec fn wf(&self) -> bool {
        &&& !queue_closed(&self.inner)
        &&& self.max_bytes > 0 ==> {
            &&& self.cur_bytes == items_bytes(queue_items(&self.inner))
            &&& items_bytes(queue_items(&self.inner)) <= self.max_bytes
        }
    }

    /// The item capacity; nothing when unbounded on that axis.
    pub closed spec fn item_cap(&self) -> Option<usize> {
        queue_cap(&self.inner)
    }

    /// The byte capacity; zero means unbounded on that axis.
    pub closed spec fn byte_cap(&self) -> u64 {
        self.max_bytes
    }

    /// Whether the queue accepts `item` right now: both the item cap and
    /// the byte cap leave room.
    pub open spec fn accepts(&self, item: DtItem) -> bool {
        &&& match self.item_cap() {
            Some(c) => self@.len() < c,
            None => true,
        }
        &&& self.byte_cap() > 0 ==> items_bytes(self@) + item_size(item) <= self.byte_cap()
    }

    /// Whether the queue has room for one control-sized item (a DDL,
    /// commit, heartbeat or marker item, all of the flat 64-byte cost).
    pub open spec fn accepts_control(&self) -> bool {
        &&& match self.item_cap() {
            Some(c) => self@.len() < c,
            None => true,
        }
        &&& self.byte_cap() > 0 ==> items_bytes(self@) + 64 <= self.byte_cap()
    }

    /// A new queue with the given caps; a zero cap means unbounded on
    /// that axis.
    pub fn new(max_items: usize, max_bytes: u64) -> (q: DtQueue)
        ensures
            q.wf(),
            q@ == Seq::<DtItem>::empty(),
            q.item_cap() == (if max_items == 0 {
                Option::<usize>::None
            } else {
                Some(max_items)
            }),
            q.byte_cap() == max_bytes,
    {
        let inner = if max_items == 0 {
            cq_unbounded()
        } else {
            cq_bounded(max_items)
        };
        DtQueue { inner, max_bytes, cur_bytes: 0 }
    }

    /// Try to push: on success the item is appended; when a cap is hit the
    /// item comes back and nothing changes.
    pub fn push(&mut self, item: DtItem) -> (r: Result<(), DtItem>)
        requires
            old(self).wf(),
        ensures
            final(self).wf(),
            final(self).item_cap() == old(self).item_cap(),
            final(self).byte_cap() == old(self).byte_cap(),
            match r {
                Ok(()) => final(self)@ == old(self)@.push(item) && old(self).accepts(item),
                Err(back) => back == item && final(self)@ == old(self)@ && !old(self).accepts(item),
            },
    {
        let size = item.byte_size();
        if self.max_bytes > 0 {
            if size > self.max_bytes - self.cur_bytes {
                return Err(item);
            }
        }
        let ghost pre = queue_items(&self.inner);
        match cq_push(&mut self.inner, item) {
            Ok(()) => {
                proof {
                    lemma_items_bytes_push(pre, item);
                }
                if self.max_bytes > 0 {
                    self.cur_bytes = self.cur_bytes + size;
                }
                Ok(())
            },
            Err(back) => Err(back),
        }
    }

    /// Pop the oldest item, or nothing when empty.
    pub fn pop(&mut self) -> (r: Option<DtItem>)
        requires
            old(self).wf(),
        ensures
            final(self).wf(),
            final(self).item_cap() == old(self).item_cap(),
            final(self).byte_cap() == old(self).byte_cap(),
            match r {
                Some(item) => old(self)@.len() > 0 && item == old(self)@[0] && final(self)@ == old(
                    self,
                )@.skip(1),
                None => old(self)@.len() == 0 && final(self)@ == old(self)@,
            },
    {
        match cq_pop(&mut self.inner) {
            Some(item) => {
                if self.max_bytes > 0 {
                    let size = item.byte_size();
                    self.cur_bytes = self.cur_bytes - size;
                }
                Some(item)
            },
            None => None,
        }
    }

    /// The number of items in the queue.
    pub fn len(&self) -> (r: usize)
        ensures
            r == self@.len(),
    {
        cq_len(&self.inner)
    }

    /// Whether the queue is empty.
    pub fn is_empty(&self) -> (r: bool)
        ensures
            r == (self@.len() == 0),
    {
        self.len() == 0
    }

    /// Drain up to `max_items` items and roughly `max_bytes` bytes (zero
    /// for no byte budget), in FIFO order. The result is the prefix taken
    /// off the queue; the drain stops early only when the queue is empty
    /// or a budget is reached.
    pub fn drain(&mut self, max_items: usize, max_bytes: u64) -> (r: Vec<DtItem>)
        requires
            old(self).wf(),
        ensures
            final(self).wf(),
            final(self).item_cap() == old(self).item_cap(),
            final(self).byte_cap() == old(self).byte_cap(),
            r@.len() <= max_items,
            r@ == old(self)@.take(r@.len() as int),
            final(self)@ == old(self)@.skip(r@.len() as int),
            final(self)@.len() > 0 ==> r@.len() == max_items || (max_bytes > 0 && items_bytes(r@)
                >= max_bytes),
    {
        let mut out: Vec<DtItem> = Vec::new();
        let mut acc: u64 = 0;
        let mut done: bool = false;
        while !done
            invariant
                self.wf(),
                self.item_cap() == old(self).item_cap(),
                self.byte_cap() == old(self).byte_cap(),
                out@.len() <= max_items,
                out@.len() + self@.len() == old(self)@.len(),
                out@ == old(self)@.take(out@.len() as int),
                self@ == old(self)@.skip(out@.len() as int),
                acc == if items_bytes(out@) > u64::MAX {
                    u64::MAX as nat
                } else {
                    items_bytes(out@)
                },
                done ==> out@.len() == max_items || self@.len() == 0 || (max_bytes > 0 && acc
                    >= max_bytes),
            decreases old(self)@.len() - out@.len() + (if done {
                0int
            } else {
                1int
            }),
        {
            if out.len() >= max_items {
                done = true;
            } else {
                let ghost pre_out = out@;
                match self.pop() {
                    Some(item) => {
                        let size = item.byte_size();
                        proof {
                            lemma_items_bytes_push(pre_out, item);
                            assert(old(self)@.skip(pre_out.len() as int)[0] == old(self)@[pre_out.len() as int]);
                            assert(pre_out.push(item) =~= old(self)@.take(pre_out.len() as int + 1));
                        }
                        out.push(item);
                        proof {
                            assert(self@ =~= old(self)@.skip(out@.len() as int));
                        }
                        if acc > u64::MAX - size {
                            acc = u64::MAX;
                        } else {
                            acc = acc + size;
                        }
                        if max_bytes > 0 && acc >= max_bytes {
                            done = true;
                        }
                    },
                    None => {
                        done = true;
                    },
                }
            }
        }
        out
    }
}

} // verus!
