//! A vector with holes that hands out the index of each inserted element.

use vstd::prelude::*;

verus! {

/// The index of the first empty slot of `s` at or after `from`, or the
/// length of `s` if every such slot is occupied.
pub open spec fn first_free_from<T>(s: Seq<Option<T>>, from: int) -> int
    decreases s.len() - from,
{
    if from >= s.len() {
        s.len() as int
    } else if s[from] is None {
        from
    } else {
        first_free_from(s, from + 1)
    }
}

/// A vector that returns the index of newly pushed elements and allows
/// holes: a taken element leaves an empty slot that a later push refills.
pub struct SimpleSlab<T> {
    buf: Vec<Option<T>>,
    last_free: usize,
}

proof fn lemma_first_free_bounds<T>(s: Seq<Option<T>>, from: int)
    requires
        0 <= from <= s.len(),
    ensures
        from <= first_free_from(s, from) <= s.len(),
        first_free_from(s, from) < s.len() ==> s[first_free_from(s, from)] is None,
        forall|i: int| from <= i < first_free_from(s, from) ==> s[i] is Some,
    decreases s.len() - from,
{
    if from < s.len() && s[from] is Some {
        lemma_first_free_bounds(s, from + 1);
    }
}

proof fn lemma_first_free_skip<T>(s: Seq<Option<T>>, from: int)
    requires
        0 <= from <= s.len(),
        forall|i: int| 0 <= i < from ==> s[i] is Some,
    ensures
        first_free_from(s, 0) == first_free_from(s, from),
    decreases from,
{
    if from > 0 {
        lemma_first_free_skip(s, from - 1);
    }
}

proof fn lemma_first_free_is<T>(s: Seq<Option<T>>, k: int)
    requires
        0 <= k <= s.len(),
        forall|i: int| 0 <= i < k ==> s[i] is Some,
        k < s.len() ==> s[k] is None,
    ensures
        first_free_from(s, 0) == k,
{
    lemma_first_free_skip(s, k);
    if k < s.len() {
        assert(first_free_from(s, k) == k);
    }
}

/// Overwriting an occupied slot leaves the first empty slot where it was.
broadcast proof fn lemma_first_free_refill<T>(s: Seq<Option<T>>, i: int, x: T)
    requires
        0 <= i < s.len(),
        s[i] is Some,
    ensures
        #[trigger] first_free_from(s.update(i, Some(x)), 0) == first_free_from(s, 0),
{
    let s2 = s.update(i, Some(x));
    lemma_first_free_bounds(s, 0);
    let k = first_free_from(s, 0);
    assert forall|j: int| 0 <= j < k implies s2[j] is Some by {
        if j != i {
            lemma_first_free_bounds(s, 0);
        }
    }
    lemma_first_free_is(s2, k);
}

impl<T> View for SimpleSlab<T> {
    type V = Seq<Option<T>>;

    closed spec fn view(&self) -> Seq<Option<T>> {
        self.buf@
    }
}

impl<T> SimpleSlab<T> {
    /// The slab's invariant: `last_free` is the first empty slot.
    pub closed spec fn wf(&self) -> bool {
        &&& self.last_free as int == first_free_from(self@, 0)
    }

    /// The index at which the next push stores its element.
    pub open spec fn next_free(&self) -> int {
        first_free_from(self@, 0)
    }

    /// Creates an empty slab.
    pub fn new() -> (r: Self)
        ensures
            r.wf(),
            r@ == Seq::<Option<T>>::empty(),
    {
        SimpleSlab { buf: Vec::new(), last_free: 0 }
    }

    /// The first empty slot, or the number of slots if none is empty.
    pub fn last_free(&self) -> (r: usize)
        requires
            self.wf(),
        ensures
            r == self.next_free(),
            r <= self@.len(),
            forall|i: int| 0 <= i < r ==> self@[i] is Some,
            r < self@.len() ==> self@[r as int] is None,
    {
        proof {
            lemma_first_free_bounds(self@, 0);
        }
        self.last_free
    }

    /// The number of slots, occupied or not.
    pub fn len(&self) -> (r: usize)
        ensures
            r == self@.len(),
    {
        self.buf.len()
    }

    /// Stores `t` in the first empty slot, or in a new slot at the end if
    /// there is none, and returns that slot's index.
    pub fn push(&mut self, t: T) -> (r: usize)
        requires
            old(self).wf(),
            old(self)@.len() < usize::MAX,
        ensures
            final(self).wf(),
            r == old(self).next_free(),
            r <= old(self)@.len(),
            r < old(self)@.len() ==> old(self)@[r as int] is None,
            forall|i: int| 0 <= i < r ==> old(self)@[i] is Some,
            r == old(self)@.len() ==> final(self)@ == old(self)@.push(Some(t)),
            r < old(self)@.len() ==> final(self)@ == old(self)@.update(r as int, Some(t)),
    {
        proof {
            lemma_first_free_bounds(self@, 0);
        }
        let len = self.buf.len();
        if len <= self.last_free {
            let ret = len;
            self.buf.push(Some(t));
            self.last_free = self.buf.len();
            proof {
                lemma_first_free_is(self@, self@.len() as int);
            }
            ret
        } else {
            let ret = self.last_free;
            self.buf.set(ret, Some(t));
            let mut i: usize = ret + 1;
            while i < len && self.buf[i].is_some()
                invariant
                    ret < i <= len,
                    len == self@.len(),
                    forall|j: int| 0 <= j < i ==> self@[j] is Some,
                decreases len - i,
            {
                i = i + 1;
            }
            self.last_free = i;
            proof {
                lemma_first_free_is(self@, i as int);
            }
            ret
        }
    }

    /// Empties the slot `idx` and returns what it held; `None` if `idx` is
    /// out of range or the slot was already empty.
    pub fn take(&mut self, idx: usize) -> (r: Option<T>)
        requires
            old(self).wf(),
        ensures
            final(self).wf(),
            idx < old(self)@.len() ==> r == old(self)@[idx as int] && final(self)@ == old(
                self,
            )@.update(idx as int, None),
            idx >= old(self)@.len() ==> r is None && final(self)@ == old(self)@,
    {
        proof {
            lemma_first_free_bounds(self@, 0);
        }
        if idx < self.buf.len() {
            let r = self.buf[idx].take();
            if idx < self.last_free {
                self.last_free = idx;
            }
            proof {
                lemma_first_free_is(self@, self.last_free as int);
            }
            r
        } else {
            None
        }
    }

    /// The element in slot `idx`, if that slot exists and is occupied.
    pub fn get(&self, idx: usize) -> (r: Option<&T>)
        ensures
            r is Some <==> (idx < self@.len() && self@[idx as int] is Some),
            r is Some ==> *r.unwrap() == self@[idx as int].unwrap(),
    {
        if idx < self.buf.len() {
            self.buf[idx].as_ref()
        } else {
            None
        }
    }

    /// The element in slot `idx` for writing, if that slot exists and is
    /// occupied.
    pub fn get_mut(&mut self, idx: usize) -> (r: Option<&mut T>)
        requires
            old(self).wf(),
        ensures
            r is Some <==> (idx < old(self)@.len() && old(self)@[idx as int] is Some),
            r is Some ==> *r.unwrap() == old(self)@[idx as int].unwrap() && final(self)@ == old(
                self,
            )@.update(idx as int, Some(*final(r.unwrap()))),
            r is None ==> final(self)@ == old(self)@,
            final(self).wf(),
            final(self).next_free() == old(self).next_free(),
    {
        proof {
            lemma_first_free_bounds(self@, 0);
        }
        if idx < self.buf.len() && self.buf[idx].is_some() {
            proof {
                broadcast use lemma_first_free_refill;
            }
            self.buf[idx].as_mut()
        } else {
            None
        }
    }

    /// The slots of the slab in index order.
    pub fn iter(&self) -> (r: &[Option<T>])
        ensures
            r@ == self@,
    {
        self.buf.as_slice()
    }
}

} // verus!
