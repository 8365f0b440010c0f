//! A fixed-capacity ring of the most recent values of any type.
//!
//! The view `h@` of a history is the sequence of every value ever
//! pushed; the ring itself retains only the last `capacity()` of them.
//! `get` indexes from the oldest retained value, `get_from_end` from
//! the newest, and both answer `None` beyond the retained window.

use vstd::prelude::*;

verus! {

use vstd::arithmetic::div_mod::lemma_fundamental_div_mod;
use vstd::arithmetic::div_mod::lemma_mod_multiples_vanish;
use vstd::arithmetic::div_mod::lemma_small_mod;

pub struct History<T> {
    buffer: Vec<Option<T>>,
    tail: usize,
    filled: usize,
    size: usize,
    hist: Ghost<Seq<T>>,
}

impl<T> View for History<T> {
    type V = Seq<T>;

    /// Every value ever pushed, oldest first.
    closed spec fn view(&self) -> Seq<T> {
        self.hist@
    }
}

impl<T> History<T> {
    /// The fixed capacity chosen at construction.
    pub closed spec fn capacity(&self) -> int {
        self.size as int
    }

    /// How many values the ring currently retains.
    pub open spec fn retained(&self) -> int {
        vstd::math::min(self@.len() as int, self.capacity())
    }

    /// The age of slot `j`: 0 for the slot holding the newest value,
    /// increasing toward the oldest.
    spec fn age_of(&self, j: int) -> int {
        (self.tail + self.size - 1 - j) % (self.size as int)
    }

    /// The ring's internal consistency: the retained window of the
    /// pushed-value sequence sits in the buffer by age, all other
    /// slots are empty.
    pub closed spec fn wf(&self) -> bool {
        &&& 1 <= self.size <= usize::MAX / 2
        &&& self.buffer@.len() == self.size
        &&& self.filled == self.retained()
        &&& self.tail == (self@.len() as int) % (self.size as int)
        &&& forall|j: int|
            0 <= j < self.size ==> self.buffer@[j] == (if self.age_of(j) < self.filled {
                Some(self@[self@.len() - 1 - self.age_of(j)])
            } else {
                None::<T>
            })
    }

    /// A new, empty history of fixed capacity `size`.
    pub fn new(size: usize) -> (h: History<T>)
        requires
            1 <= size <= usize::MAX / 2,
        ensures
            h.wf(),
            h@ == Seq::<T>::empty(),
            h.capacity() == size,
    {
        let mut buffer: Vec<Option<T>> = Vec::new();
        let mut i: usize = 0;
        while i < size
            invariant
                i <= size,
                buffer@.len() == i,
                forall|j: int| 0 <= j < i ==> buffer@[j] is None,
            decreases size - i,
        {
            buffer.push(None);
            i += 1;
        }
        let h = History { buffer, tail: 0, filled: 0, size, hist: Ghost(Seq::empty()) };
        proof {
            lemma_small_mod(0, size as nat);
        }
        h
    }

    /// Push a value, overwriting the oldest retained one once full.
    /// Never fails; the view simply grows by the pushed value.
    pub fn push(&mut self, item: T)
        requires
            old(self).wf(),
        ensures
            final(self).wf(),
            final(self)@ == old(self)@.push(item),
            final(self).capacity() == old(self).capacity(),
    {
        let ghost len = self@.len() as int;
        let ghost sz = self.size as int;
        let ghost old_tail = self.tail as int;
        let slot = self.tail;
        self.buffer.set(slot, Some(item));
        self.tail = if self.tail + 1 == self.size {
            0
        } else {
            self.tail + 1
        };
        if self.filled < self.size {
            self.filled = self.filled + 1;
        }
        proof {
            self.hist@ = self.hist@.push(item);
            // The new tail is (len + 1) % size.
            assert(old_tail == len % sz);
            assert(len == sz * (len / sz) + len % sz) by {
                lemma_fundamental_div_mod(len, sz);
            }
            assert((len + 1) % sz == (sz * (len / sz) + (old_tail + 1)) % sz);
            assert((sz * (len / sz) + (old_tail + 1)) % sz == (old_tail + 1) % sz) by {
                lemma_mod_multiples_vanish(len / sz, old_tail + 1, sz);
            }
            if old_tail + 1 == sz {
                assert((old_tail + 1) % sz == 0) by {
                    assert(sz * 1 + 0 == old_tail + 1);
                    lemma_mod_multiples_vanish(1, 0, sz);
                    lemma_small_mod(0nat, sz as nat);
                }
            } else {
                assert((old_tail + 1) % sz == old_tail + 1) by {
                    lemma_small_mod((old_tail + 1) as nat, sz as nat);
                }
            }
            assert(self.tail == (self@.len() as int) % (self.size as int));
            // Slot ages: the written slot is now age 0, every other
            // slot aged by one.
            assert forall|j: int| 0 <= j < sz implies self.buffer@[j] == (if self.age_of(j)
                < self.filled {
                Some(self@[self@.len() - 1 - self.age_of(j)])
            } else {
                None::<T>
            }) by {
                let a_new = self.age_of(j);
                let t_new = self.tail as int;
                if j == old_tail {
                    // (t_new + sz - 1 - j) == 0 or sz; both give age 0.
                    if old_tail + 1 == sz {
                        assert(t_new == 0);
                        assert(t_new + sz - 1 - j == 0);
                        lemma_small_mod(0nat, sz as nat);
                    } else {
                        assert(t_new + sz - 1 - j == sz);
                        assert(sz * 1 + 0 == sz);
                        lemma_mod_multiples_vanish(1, 0, sz);
                        lemma_small_mod(0nat, sz as nat);
                    }
                    assert(a_new == 0);
                    assert(self.buffer@[j] == Some(item));
                    assert(self@[self@.len() - 1] == item);
                } else {
                    let a_old = (old_tail + sz - 1 - j) % sz;
                    // Old age is determined: 0 <= old_tail + sz - 1 - j < 2 * sz.
                    let d = old_tail + sz - 1 - j;
                    if d < sz {
                        lemma_small_mod(d as nat, sz as nat);
                        assert(a_old == d);
                    } else {
                        assert(sz * 1 + (d - sz) == d);
                        lemma_mod_multiples_vanish(1, d - sz, sz);
                        lemma_small_mod((d - sz) as nat, sz as nat);
                        assert(a_old == d - sz);
                    }
                    // j != old_tail, so a_old < sz - 1 and the new age
                    // is a_old + 1.
                    assert(a_old < sz - 1);
                    let e = t_new + sz - 1 - j;
                    if old_tail + 1 == sz {
                        assert(e == d - sz + 1);
                        lemma_small_mod((d - sz + 1) as nat, sz as nat);
                    } else {
                        assert(e == d + 1);
                        if e < sz {
                            lemma_small_mod(e as nat, sz as nat);
                        } else {
                            assert(sz * 1 + (e - sz) == e);
                            lemma_mod_multiples_vanish(1, e - sz, sz);
                            lemma_small_mod((e - sz) as nat, sz as nat);
                        }
                    }
                    assert(a_new == a_old + 1);
                }
            }
        }
    }

    /// The `index`-th oldest retained value (0 = oldest retained), or
    /// `None` beyond the retained window.
    pub fn get(&self, index: usize) -> (r: Option<&T>)
        requires
            self.wf(),
        ensures
            match r {
                Some(v) => {
                    &&& index < self.retained()
                    &&& *v == self@[self@.len() - self.retained() + index]
                },
                None => index >= self.retained(),
            },
    {
        if index >= self.filled {
            None
        } else {
            let slot = (self.tail + self.size - self.filled + index) % self.size;
            proof {
                self.lemma_slot_age(
                    (self.tail + self.size - self.filled + index) as int,
                    (self.filled - 1 - index) as int,
                );
            }
            self.buffer[slot].as_ref()
        }
    }

    /// The `index`-th newest retained value (0 = newest), or `None`
    /// beyond the retained window.
    pub fn get_from_end(&self, index: usize) -> (r: Option<&T>)
        requires
            self.wf(),
        ensures
            match r {
                Some(v) => {
                    &&& index < self.retained()
                    &&& *v == self@[self@.len() - 1 - index]
                },
                None => index >= self.retained(),
            },
    {
        if index >= self.filled {
            None
        } else {
            let slot = (self.tail + self.size - 1 - index) % self.size;
            proof {
                self.lemma_slot_age((self.tail + self.size - 1 - index) as int, index as int);
            }
            self.buffer[slot].as_ref()
        }
    }

    /// The most recently pushed value, or `None` while empty.
    pub fn last(&self) -> (r: Option<&T>)
        requires
            self.wf(),
        ensures
            match r {
                Some(v) => {
                    &&& self@.len() >= 1
                    &&& *v == self@[self@.len() - 1]
                },
                None => self@.len() == 0,
            },
    {
        self.get_from_end(0)
    }

    /// The fixed capacity.
    pub fn size(&self) -> (r: usize)
        requires
            self.wf(),
        ensures
            r == self.capacity(),
    {
        self.size
    }

    /// `(tail + size - 1 - a) % size` has age `a`, for `0 <= a < size`:
    /// reducing `d` modulo `size` and measuring its age gives `a` back.
    proof fn lemma_slot_age(&self, d: int, a: int)
        requires
            self.wf(),
            0 <= a < self.size,
            d == self.tail + self.size - 1 - a,
        ensures
            self.age_of(d % (self.size as int)) == a,
    {
        let sz = self.size as int;
        let slot = d % sz;
        assert(0 <= d < 2 * sz);
        if d < sz {
            lemma_small_mod(d as nat, sz as nat);
            assert(slot == d);
            let e = self.tail + sz - 1 - slot;
            assert(e == a);
            lemma_small_mod(a as nat, sz as nat);
        } else {
            assert(sz * 1 + (d - sz) == d);
            lemma_mod_multiples_vanish(1, d - sz, sz);
            lemma_small_mod((d - sz) as nat, sz as nat);
            assert(slot == d - sz);
            let e = self.tail + sz - 1 - slot;
            assert(e == a + sz);
            assert(sz * 1 + a == e);
            lemma_mod_multiples_vanish(1, a, sz);
            lemma_small_mod(a as nat, sz as nat);
        }
    }

    /// The ring never retains more than its capacity, and once at
    /// least `capacity` values were pushed it retains exactly that
    /// many: the window of the most recent pushes.
    pub proof fn lemma_window_bounded(&self)
        requires
            self.wf(),
        ensures
            0 <= self.retained() <= self.capacity(),
            self@.len() >= self.capacity() ==> self.retained() == self.capacity(),
            self@.len() < self.capacity() ==> self.retained() == self@.len(),
    {
    }
}

} // verus!
