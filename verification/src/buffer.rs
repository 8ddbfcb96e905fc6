use vstd::prelude::*;
use std::collections::VecDeque;
use crate::entry::EventWrapper;

verus! {

/// How many events the buffer may hold at once.
pub const CAPACITY: usize = 1024;

/// What one append does to a buffer's contents: when the buffer is full,
/// the oldest element is evicted before the new one is pushed to the back.
pub open spec fn buf_append(s: Seq<EventWrapper>, e: EventWrapper) -> Seq<EventWrapper> {
    if s.len() < CAPACITY {
        s.push(e)
    } else {
        s.drop_first().push(e)
    }
}

/// The contents after appending every element of `items`, in order.
pub open spec fn buf_append_all(s: Seq<EventWrapper>, items: Seq<EventWrapper>) -> Seq<
    EventWrapper,
>
    decreases items.len(),
{
    if items.len() == 0 {
        s
    } else {
        buf_append_all(buf_append(s, items[0]), items.drop_first())
    }
}

/// The last `CAPACITY` elements of `s`, or all of `s` if it is shorter.
pub open spec fn last_capacity(s: Seq<EventWrapper>) -> Seq<EventWrapper> {
    if s.len() <= CAPACITY {
        s
    } else {
        s.subrange(s.len() - CAPACITY, s.len() as int)
    }
}

/// The bounded FIFO queue of captured events.
///
/// Appends evict the oldest element once the queue is full; the batch
/// encoder empties it atomically with `drain_all`. The queue itself is a
/// plain value: the caller that shares it between producers and the
/// delivery task guards it with one lock held only across these calls.
pub struct Buffer {
    q: VecDeque<EventWrapper>,
}

impl Buffer {
    pub closed spec fn view(self) -> Seq<EventWrapper> {
        self.q@
    }

    /// The capacity bound that every operation preserves.
    pub open spec fn wf(self) -> bool {
        self@.len() <= CAPACITY
    }

    pub fn new() -> (r: Buffer)
        ensures
            r@ =~= Seq::<EventWrapper>::empty(),
            r.wf(),
    {
        Buffer { q: VecDeque::new() }
    }

    pub fn len(&self) -> (r: usize)
        ensures
            r == self@.len(),
    {
        self.q.len()
    }

    pub fn is_empty(&self) -> (r: bool)
        ensures
            r == (self@.len() == 0),
    {
        self.q.len() == 0
    }

    /// Appends one event, evicting the oldest if the buffer is full.
    pub fn append(&mut self, e: EventWrapper)
        requires
            old(self).wf(),
        ensures
            final(self)@ == buf_append(old(self)@, e),
            final(self).wf(),
    {
        if self.q.len() == CAPACITY {
            self.q.pop_front();
            proof {
                assert(self.q@ =~= old(self)@.drop_first());
            }
        }
        self.q.push_back(e);
    }

    /// Atomically removes and returns every buffered event, oldest first.
    ///
    /// Everything that was in the buffer is in the result and nothing
    /// else: no event is both returned and kept, or silently dropped.
    pub fn drain_all(&mut self) -> (r: Vec<EventWrapper>)
        ensures
            r@ == old(self)@,
            final(self)@ =~= Seq::<EventWrapper>::empty(),
            final(self).wf(),
    {
        let ghost q0 = self.q@;
        let mut out: Vec<EventWrapper> = Vec::new();
        while self.q.len() > 0
            invariant
                q0 == old(self)@,
                out@ + self.q@ == q0,
            decreases self.q@.len(),
        {
            match self.q.pop_front() {
                Option::Some(w) => {
                    out.push(w);
                    proof {
                        assert(out@ + self.q@ =~= q0);
                    }
                },
                Option::None => {},
            }
        }
        proof {
            assert(out@ =~= q0);
        }
        out
    }
}

/// Appending never grows the buffer past `CAPACITY`, and after any
/// sequence of appends the buffer holds exactly the last `CAPACITY`
/// of the appended history, their relative order kept.
pub proof fn lemma_capacity_invariant(s: Seq<EventWrapper>, items: Seq<EventWrapper>)
    requires
        s.len() <= CAPACITY,
    ensures
        buf_append_all(s, items).len() <= CAPACITY,
        buf_append_all(s, items) == last_capacity(s + items),
    decreases items.len(),
{
    if items.len() == 0 {
        assert(s + items =~= s);
    } else {
        let s1 = buf_append(s, items[0]);
        lemma_capacity_invariant(s1, items.drop_first());
        assert(s1 + items.drop_first() =~= if s.len() < CAPACITY {
            s + items
        } else {
            (s + items).drop_first()
        });
        if s.len() < CAPACITY {
        } else {
            let t = s + items;
            assert(t.len() > CAPACITY);
            assert(last_capacity(t.drop_first()) =~= last_capacity(t));
        }
    }
}

} // verus!
