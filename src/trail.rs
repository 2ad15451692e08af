use vstd::prelude::*;
use std::collections::VecDeque;

verus! {

/// The last `n` items of `s`, oldest first; all of `s` when it is no longer.
pub open spec fn keep_last<T>(s: Seq<T>, n: nat) -> Seq<T> {
    if s.len() <= n {
        s
    } else {
        s.subrange(s.len() - n, s.len() as int)
    }
}

/// What a trail holding `s` with capacity `cap` holds after `ps` is pushed, one
/// point at a time.
pub open spec fn pushed_all<T>(s: Seq<T>, cap: nat, ps: Seq<T>) -> Seq<T>
    decreases ps.len(),
{
    if ps.len() == 0 {
        s
    } else {
        keep_last(pushed_all(s, cap, ps.drop_last()).push(ps.last()), cap)
    }
}

proof fn lemma_keep_last_push<T>(a: Seq<T>, n: nat, x: T)
    ensures
        keep_last(keep_last(a, n).push(x), n) == keep_last(a.push(x), n),
{
    if a.len() > n {
        assert(keep_last(keep_last(a, n).push(x), n) =~= keep_last(a.push(x), n));
    } else {
        assert(keep_last(a, n) == a);
    }
}

/// Pushing points one at a time into a trail that holds no more than its capacity
/// keeps exactly the newest `cap` points of everything pushed, oldest first; in
/// particular the trail never holds more than `cap` points.
pub proof fn lemma_pushes_keep_newest<T>(s: Seq<T>, cap: nat, ps: Seq<T>)
    requires
        s.len() <= cap,
    ensures
        pushed_all(s, cap, ps) == keep_last(s + ps, cap),
        pushed_all(s, cap, ps).len() <= cap,
    decreases ps.len(),
{
    if ps.len() == 0 {
        assert(s + ps =~= s);
    } else {
        lemma_pushes_keep_newest(s, cap, ps.drop_last());
        lemma_keep_last_push(s + ps.drop_last(), cap, ps.last());
        assert((s + ps.drop_last()).push(ps.last()) =~= s + ps);
    }
}

/// A bounded first-in first-out buffer of points: once it holds `capacity` points,
/// each new point evicts the oldest.
pub struct Trail<T> {
    points: VecDeque<T>,
    capacity: usize,
}

impl<T> View for Trail<T> {
    type V = Seq<T>;

    closed spec fn view(&self) -> Seq<T> {
        self.points@
    }
}

impl<T> Trail<T> {
    pub closed spec fn spec_capacity(&self) -> nat {
        self.capacity as nat
    }

    /// The trail never holds more points than its capacity.
    pub open spec fn wf(&self) -> bool {
        self@.len() <= self.spec_capacity()
    }

    pub fn new(capacity: usize) -> (r: Self)
        ensures
            r.wf(),
            r@ == Seq::<T>::empty(),
            r.spec_capacity() == capacity,
    {
        Trail { points: VecDeque::new(), capacity }
    }

    pub fn capacity(&self) -> (r: usize)
        ensures
            r == self.spec_capacity(),
    {
        self.capacity
    }

    pub fn len(&self) -> (r: usize)
        ensures
            r == self@.len(),
    {
        self.points.len()
    }

    /// Drops the oldest points until no more than the capacity remain.
    fn trim(&mut self)
        ensures
            final(self)@ == keep_last(old(self)@, old(self).spec_capacity()),
            final(self).spec_capacity() == old(self).spec_capacity(),
            final(self).wf(),
    {
        let ghost s = self@;
        while self.points.len() > self.capacity
            invariant
                self.spec_capacity() == old(self).spec_capacity(),
                s == old(self)@,
                self@.len() <= s.len(),
                self@ == s.subrange(s.len() - self@.len(), s.len() as int),
                s.len() > self.spec_capacity() ==> self@.len() >= self.spec_capacity(),
                s.len() <= self.spec_capacity() ==> self@ == s,
            decreases self@.len(),
        {
            self.points.pop_front();
        }
        assert(self@ =~= keep_last(s, self.spec_capacity()));
    }

    /// Appends `p` as the newest point, evicting the oldest beyond the capacity.
    pub fn push(&mut self, p: T)
        ensures
            final(self)@ == keep_last(old(self)@.push(p), old(self).spec_capacity()),
            final(self).spec_capacity() == old(self).spec_capacity(),
            final(self).wf(),
    {
        self.points.push_back(p);
        self.trim();
    }

    /// Changes the capacity, evicting the oldest points beyond the new one.
    pub fn set_capacity(&mut self, capacity: usize)
        ensures
            final(self)@ == keep_last(old(self)@, capacity as nat),
            final(self).spec_capacity() == capacity,
            final(self).wf(),
    {
        self.capacity = capacity;
        self.trim();
    }

    pub fn clear(&mut self)
        ensures
            final(self)@ == Seq::<T>::empty(),
            final(self).spec_capacity() == old(self).spec_capacity(),
            final(self).wf(),
    {
        self.points = VecDeque::new();
    }
}

impl<T: Copy> Trail<T> {
    /// A copy of the points, oldest first, independent of the trail.
    pub fn to_vec(&self) -> (r: Vec<T>)
        ensures
            r@ == self@,
    {
        let mut out: Vec<T> = Vec::with_capacity(self.points.len());
        let mut i: usize = 0;
        while i < self.points.len()
            invariant
                i <= self@.len(),
                out@ == self@.subrange(0, i as int),
            decreases self@.len() - i,
        {
            out.push(self.points[i]);
            i = i + 1;
            assert(out@ =~= self@.subrange(0, i as int));
        }
        assert(out@ =~= self@);
        out
    }
}

} // verus!
