//! A fixed-capacity ring buffer: pushing into a full buffer overwrites the
//! oldest element.
use vstd::prelude::*;

verus! {

/// A fixed-size ring buffer backed by a `Vec`.
///
/// Its view is the sequence of stored elements from oldest to newest.
#[derive(Debug, Clone)]
pub struct RingBuffer<T> {
    buf: Vec<T>,
    capacity: usize,
    /// Points to the next write position.
    head: usize,
    /// Number of elements currently stored.
    len: usize,
}

impl<T> RingBuffer<T> {
    /// The buffer's internal consistency: the backing vector grows up to the
    /// capacity; once it is full, `head` marks the oldest element.
    pub closed spec fn wf(&self) -> bool {
        &&& self.capacity > 0
        &&& self.buf@.len() <= self.capacity
        &&& self.len == self.buf@.len()
        &&& self.head < self.capacity
        &&& self.len < self.capacity ==> self.head == self.len
    }

    /// The maximum number of elements.
    pub closed spec fn cap(&self) -> nat {
        self.capacity as nat
    }

    /// Elements from oldest to newest.
    pub closed spec fn contents(&self) -> Seq<T> {
        if self.len < self.capacity {
            self.buf@
        } else {
            self.buf@.subrange(self.head as int, self.capacity as int) + self.buf@.subrange(
                0,
                self.head as int,
            )
        }
    }

    /// The contents of the buffer after pushing `item` onto `s` with capacity `cap`.
    pub open spec fn pushed(s: Seq<T>, cap: nat, item: T) -> Seq<T> {
        if s.len() < cap {
            s.push(item)
        } else {
            s.drop_first().push(item)
        }
    }

    /// A well-formed buffer has a positive capacity and never holds more
    /// elements than its capacity.
    pub proof fn lemma_wf_bounds(&self)
        requires
            self.wf(),
        ensures
            self.cap() > 0,
            self.contents().len() <= self.cap(),
    {
    }

    /// The contents after pushing each of `items` in turn onto `s`.
    pub open spec fn pushed_all(s: Seq<T>, cap: nat, items: Seq<T>) -> Seq<T>
        decreases items.len(),
    {
        if items.len() == 0 {
            s
        } else {
            Self::pushed(Self::pushed_all(s, cap, items.drop_last()), cap, items.last())
        }
    }

    /// The last `n` elements of `s` (all of them when it has no more than `n`).
    pub open spec fn keep_last(s: Seq<T>, n: nat) -> Seq<T> {
        if s.len() <= n {
            s
        } else {
            s.subrange(s.len() - n, s.len() as int)
        }
    }

    proof fn lemma_push_keeps_last(t: Seq<T>, cap: nat, x: T)
        requires
            cap > 0,
        ensures
            Self::pushed(Self::keep_last(t, cap), cap, x) == Self::keep_last(t.push(x), cap),
    {
        if t.len() < cap {
            assert(Self::keep_last(t.push(x), cap) =~= t.push(x));
        } else {
            let k = Self::keep_last(t, cap);
            assert(k.len() == cap);
            assert(Self::pushed(k, cap, x) =~= Self::keep_last(t.push(x), cap));
        }
    }

    /// Pushing a sequence of items into a buffer of capacity `cap` that holds
    /// `s` leaves the last `cap` elements of `s` followed by the items (all
    /// of them when there are no more); in particular, after `n` pushes into
    /// an empty buffer it holds `min(n, cap)` elements, the newest last.
    pub proof fn lemma_pushed_all(s: Seq<T>, cap: nat, items: Seq<T>)
        requires
            cap > 0,
            s.len() <= cap,
        ensures
            Self::pushed_all(s, cap, items) == Self::keep_last(s + items, cap),
            Self::pushed_all(s, cap, items).len() == if s.len() + items.len() <= cap {
                s.len() + items.len()
            } else {
                cap
            },
        decreases items.len(),
    {
        if items.len() == 0 {
            assert(s + items =~= s);
        } else {
            Self::lemma_pushed_all(s, cap, items.drop_last());
            Self::lemma_push_keeps_last(s + items.drop_last(), cap, items.last());
            assert((s + items.drop_last()).push(items.last()) =~= s + items);
        }
    }

    /// Create a new ring buffer with the given capacity.
    pub fn new(capacity: usize) -> (r: Self)
        requires
            capacity > 0,
        ensures
            r.wf(),
            r.cap() == capacity,
            r.contents() == Seq::<T>::empty(),
    {
        RingBuffer { buf: Vec::with_capacity(capacity), capacity, head: 0, len: 0 }
    }

    /// Push an item, overwriting the oldest element if the buffer is full.
    pub fn push(&mut self, item: T)
        requires
            old(self).wf(),
        ensures
            final(self).wf(),
            final(self).cap() == old(self).cap(),
            final(self).contents() == Self::pushed(old(self).contents(), old(self).cap(), item),
    {
        let ghost old_contents = self.contents();
        let ghost old_buf = self.buf@;
        if self.len < self.capacity {
            self.buf.push(item);
            self.len = self.len + 1;
            self.head = if self.head + 1 == self.capacity {
                0
            } else {
                self.head + 1
            };
            proof {
                if self.len < self.capacity {
                    assert(self.contents() =~= old_contents.push(item));
                } else {
                    assert(self.head == 0);
                    assert(self.contents() =~= self.buf@);
                    assert(self.buf@ =~= old_contents.push(item));
                }
            }
        } else {
            let h = self.head;
            self.buf.set(h, item);
            self.head = if self.head + 1 == self.capacity {
                0
            } else {
                self.head + 1
            };
            proof {
                let c = self.capacity as int;
                let hh = h as int;
                let expected = old_contents.drop_first().push(item);
                assert(old_contents =~= old_buf.subrange(hh, c) + old_buf.subrange(0, hh));
                if hh + 1 < c {
                    assert(self.head == hh + 1);
                    assert forall|i: int| 0 <= i < c implies #[trigger] self.contents()[i]
                        == expected[i] by {
                        if i < c - hh - 1 {
                            assert(self.contents()[i] == self.buf@[hh + 1 + i]);
                            assert(expected[i] == old_contents[i + 1]);
                        } else if i < c - 1 {
                            assert(self.contents()[i] == self.buf@[i - (c - hh - 1)]);
                            assert(expected[i] == old_contents[i + 1]);
                        } else {
                            assert(self.contents()[i] == self.buf@[hh]);
                        }
                    }
                    assert(self.contents() =~= expected);
                } else {
                    assert(self.head == 0);
                    assert forall|i: int| 0 <= i < c implies #[trigger] self.contents()[i]
                        == expected[i] by {
                        if i < c - 1 {
                            assert(expected[i] == old_contents[i + 1]);
                        }
                    }
                    assert(self.contents() =~= expected);
                }
            }
        }
    }

    /// Number of elements currently stored.
    pub fn len(&self) -> (r: usize)
        requires
            self.wf(),
        ensures
            r == self.contents().len(),
    {
        self.len
    }

    /// Whether the buffer contains zero elements.
    pub fn is_empty(&self) -> (r: bool)
        requires
            self.wf(),
        ensures
            r == (self.contents().len() == 0),
    {
        self.len == 0
    }

    /// Whether the buffer is at capacity.
    pub fn is_full(&self) -> (r: bool)
        requires
            self.wf(),
        ensures
            r == (self.contents().len() == self.cap()),
    {
        self.len == self.capacity
    }

    /// The maximum number of elements the buffer can hold.
    pub fn capacity(&self) -> (r: usize)
        ensures
            r == self.cap(),
    {
        self.capacity
    }

    /// The most recently pushed element.
    pub fn last(&self) -> (r: Option<&T>)
        requires
            self.wf(),
        ensures
            match r {
                None => self.contents().len() == 0,
                Some(x) => self.contents().len() > 0 && *x == self.contents().last(),
            },
    {
        if self.len == 0 {
            return None;
        }
        let idx = if self.head == 0 {
            self.capacity - 1
        } else {
            self.head - 1
        };
        proof {
            let c = self.capacity as int;
            let hh = self.head as int;
            if self.len < self.capacity {
                assert(idx == hh - 1);
            } else {
                if hh == 0 {
                    assert(idx == c - 1);
                    assert(self.contents() =~= self.buf@);
                } else {
                    assert(idx == hh - 1);
                    assert(self.contents().last() == self.buf@.subrange(0, hh).last());
                }
            }
        }
        Some(&self.buf[idx])
    }

    /// The element at logical index `index` (0 = oldest, len-1 = newest).
    pub fn get(&self, index: usize) -> (r: Option<&T>)
        requires
            self.wf(),
        ensures
            match r {
                None => index >= self.contents().len(),
                Some(x) => index < self.contents().len() && *x == self.contents()[index as int],
            },
    {
        if index >= self.len {
            return None;
        }
        let start = if self.len < self.capacity {
            0
        } else {
            self.head
        };
        let actual = if index < self.capacity - start {
            start + index
        } else {
            index - (self.capacity - start)
        };
        proof {
            let c = self.capacity as int;
            let hh = self.head as int;
            let i = index as int;
            if self.len == self.capacity {
                if hh + i < c {
                    assert(actual == hh + i);
                } else {
                    assert(actual == hh + i - c);
                }
            }
        }
        Some(&self.buf[actual])
    }

    /// An iterator over the elements, from oldest to newest.
    pub fn iter(&self) -> (r: RingBufferIter<'_, T>)
        requires
            self.wf(),
        ensures
            r.wf(),
            r.source() == self,
            r.position() == 0,
    {
        RingBufferIter { buf: self, pos: 0 }
    }
}

/// Walks a ring buffer from its oldest element to its newest.
pub struct RingBufferIter<'a, T> {
    buf: &'a RingBuffer<T>,
    pos: usize,
}

impl<'a, T> RingBufferIter<'a, T> {
    pub closed spec fn wf(&self) -> bool {
        self.buf.wf() && self.pos <= self.buf.contents().len()
    }

    /// The buffer being walked.
    pub closed spec fn source(&self) -> &'a RingBuffer<T> {
        self.buf
    }

    /// How many elements have been handed out.
    pub closed spec fn position(&self) -> nat {
        self.pos as nat
    }

    /// The elements still to come.
    pub open spec fn remaining(&self) -> Seq<T> {
        self.source().contents().skip(self.position() as int)
    }

    /// The next element, or `None` once all have been handed out.
    pub fn next(&mut self) -> (r: Option<&'a T>)
        requires
            old(self).wf(),
        ensures
            final(self).wf(),
            final(self).source() == old(self).source(),
            match r {
                None => old(self).remaining().len() == 0 && final(self).position() == old(
                    self,
                ).position(),
                Some(x) => old(self).remaining().len() > 0 && *x == old(self).remaining()[0]
                    && final(self).position() == old(self).position() + 1,
            },
    {
        proof {
            self.buf.lemma_wf_bounds();
        }
        if self.pos >= self.buf.len {
            return None;
        }
        let item = self.buf.get(self.pos);
        self.pos = self.pos + 1;
        item
    }

    /// The number of elements still to come.
    pub fn size_hint(&self) -> (r: usize)
        requires
            self.wf(),
        ensures
            r == self.remaining().len(),
    {
        proof {
            self.buf.lemma_wf_bounds();
        }
        self.buf.len - self.pos
    }
}

/// Pushing never grows the buffer past its capacity; the pushed item is
/// the newest element; while there is room nothing is lost, and once full
/// exactly the oldest element is dropped.
pub proof fn lemma_push_overwrites_oldest<T>(s: Seq<T>, cap: nat, item: T)
    requires
        cap > 0,
        s.len() <= cap,
    ensures
        RingBuffer::<T>::pushed(s, cap, item).len() <= cap,
        RingBuffer::<T>::pushed(s, cap, item).last() == item,
        s.len() < cap ==> RingBuffer::<T>::pushed(s, cap, item).len() == s.len() + 1
            && RingBuffer::<T>::pushed(s, cap, item).drop_last() == s,
        s.len() == cap ==> RingBuffer::<T>::pushed(s, cap, item).len() == cap
            && RingBuffer::<T>::pushed(s, cap, item).drop_last() == s.drop_first(),
{
    assert(s.push(item).drop_last() =~= s);
    if s.len() == cap {
        assert(s.drop_first().push(item).drop_last() =~= s.drop_first());
    }
}

} // verus!
