//! A queue with a baseline capacity that can stretch beyond it for
//! lookahead and contracts back once the extra items are consumed.
use vstd::prelude::*;

verus! {

/// The capacity that `ElasticQueue::new` gives.
pub const DEFAULT_QUEUE_CAPACITY: usize = 65536;

/// A single growable array with a read cursor. The items that are still
/// queued are those from `read_pos` to the end of `buf`; those before it
/// have been consumed and are reclaimed when the queue compacts.
pub struct ElasticQueue<T> {
    buf: Vec<T>,
    cap: usize,
    read_pos: usize,
}

/// Relies on `Vec::shrink_to`: it releases spare capacity and keeps the items.
#[verifier::external_body]
fn release_spare<T>(v: &mut Vec<T>, min_capacity: usize)
    ensures
        final(v)@ == old(v)@,
{
    v.shrink_to(min_capacity)
}

impl<T: Copy> View for ElasticQueue<T> {
    type V = Seq<T>;

    /// The queued items, oldest first.
    closed spec fn view(&self) -> Seq<T> {
        self.buf@.subrange(self.read_pos as int, self.buf@.len() as int)
    }
}

impl<T: Copy> ElasticQueue<T> {
    /// The cursor never passes the end of the storage.
    pub closed spec fn wf(&self) -> bool {
        self.read_pos <= self.buf@.len()
    }

    /// The baseline capacity, fixed at construction.
    pub closed spec fn spec_capacity(&self) -> nat {
        self.cap as nat
    }

    /// Whether the storage holds more than the baseline capacity: the
    /// queue has been stretched and has not contracted yet.
    pub closed spec fn spec_stretched(&self) -> bool {
        self.buf@.len() > self.cap
    }

    /// An empty queue with a baseline capacity of 64 Ki items.
    pub fn new() -> (r: Self)
        ensures
            r.wf(),
            r@ == Seq::<T>::empty(),
            r.spec_capacity() == DEFAULT_QUEUE_CAPACITY,
    {
        Self::with_capacity(DEFAULT_QUEUE_CAPACITY)
    }

    /// An empty queue with the given baseline capacity.
    pub fn with_capacity(capacity: usize) -> (r: Self)
        ensures
            r.wf(),
            r@ == Seq::<T>::empty(),
            r.spec_capacity() == capacity,
            !r.spec_stretched(),
    {
        let r = ElasticQueue { buf: Vec::with_capacity(capacity), cap: capacity, read_pos: 0 };
        assert(r@ =~= Seq::<T>::empty());
        r
    }

    pub fn capacity(&self) -> (r: usize)
        ensures
            r == self.spec_capacity(),
    {
        self.cap
    }

    pub fn len(&self) -> (r: usize)
        requires
            self.wf(),
        ensures
            r == self@.len(),
    {
        self.buf.len() - self.read_pos
    }

    pub fn is_empty(&self) -> (r: bool)
        requires
            self.wf(),
        ensures
            r == (self@.len() == 0),
    {
        self.buf.len() == self.read_pos
    }

    /// Whether the storage has grown past the baseline capacity.
    pub fn is_stretched(&self) -> (r: bool)
        ensures
            r == self.spec_stretched(),
    {
        self.buf.len() > self.cap
    }

    /// The queued items, oldest first, without consuming them.
    pub fn as_slice(&self) -> (r: &[T])
        requires
            self.wf(),
        ensures
            r@ == self@,
    {
        let all = self.buf.as_slice();
        &all[self.read_pos..all.len()]
    }

    /// Moves the queued items to the front of the storage, dropping the
    /// consumed ones.
    fn compact(&mut self)
        requires
            old(self).wf(),
        ensures
            final(self).wf(),
            final(self)@ == old(self)@,
            final(self).cap == old(self).cap,
            final(self).read_pos == 0,
    {
        let total = self.buf.len();
        let n = total - self.read_pos;
        let mut i: usize = 0;
        while i < n
            invariant
                total == self.buf@.len(),
                self.read_pos <= self.buf@.len(),
                n == self.buf@.len() - self.read_pos,
                self.buf@.len() == old(self).buf@.len(),
                self.read_pos == old(self).read_pos,
                self.cap == old(self).cap,
                0 <= i <= n,
                forall|k: int| 0 <= k < i ==> self.buf@[k] == old(self)@[k],
                forall|k: int|
                    self.read_pos + i <= k < self.buf@.len() ==> self.buf@[k] == old(self).buf@[k],
            decreases n - i,
        {
            let x = self.buf[self.read_pos + i];
            self.buf.set(i, x);
            i = i + 1;
        }
        self.buf.truncate(n);
        self.read_pos = 0;
        assert(self@ =~= old(self)@);
    }

    /// Appends one item at the back.
    pub fn enqueue(&mut self, item: T)
        requires
            old(self).wf(),
        ensures
            final(self).wf(),
            final(self)@ == old(self)@.push(item),
            final(self).spec_capacity() == old(self).spec_capacity(),
    {
        self.buf.push(item);
        assert(self@ =~= old(self)@.push(item));
    }

    /// Appends the items, oldest first. Consumed items are reclaimed first,
    /// so that the storage holds only what is queued; whatever goes past
    /// the baseline capacity stretches the queue.
    pub fn extend(&mut self, items: &[T])
        requires
            old(self).wf(),
        ensures
            final(self).wf(),
            final(self)@ == old(self)@ + items@,
            final(self).spec_capacity() == old(self).spec_capacity(),
    {
        if self.read_pos > 0 {
            self.compact();
        }
        let ghost start = self@;
        let mut i: usize = 0;
        while i < items.len()
            invariant
                self.wf(),
                self.cap == old(self).cap,
                0 <= i <= items@.len(),
                self@ == start + items@.subrange(0, i as int),
            decreases items@.len() - i,
        {
            self.enqueue(items[i]);
            assert(items@.subrange(0, i + 1) =~= items@.subrange(0, i as int).push(items@[i as int]));
            i = i + 1;
        }
        assert(items@.subrange(0, items@.len() as int) =~= items@);
    }

    /// Drops the `n` oldest items, or all of them where fewer are queued.
    /// A stretched queue whose remaining items fit the baseline capacity
    /// contracts: it compacts and gives back the extra storage.
    pub fn consume(&mut self, n: usize)
        requires
            old(self).wf(),
        ensures
            final(self).wf(),
            final(self)@ == old(self)@.subrange(
                if n <= old(self)@.len() { n as int } else { old(self)@.len() as int },
                old(self)@.len() as int,
            ),
            final(self).spec_capacity() == old(self).spec_capacity(),
            final(self)@.len() <= final(self).spec_capacity() ==> !final(self).spec_stretched(),
    {
        let len = self.buf.len() - self.read_pos;
        let k = if n <= len { n } else { len };
        let ghost before = self@;
        self.read_pos = self.read_pos + k;
        assert(self@ =~= before.subrange(k as int, before.len() as int));
        if self.buf.len() > self.cap && self.buf.len() - self.read_pos <= self.cap {
            self.compact();
            let cap = self.cap;
            release_spare(&mut self.buf, cap);
        }
    }
}

} // verus!
