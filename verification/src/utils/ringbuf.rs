use vstd::prelude::*;

verus! {

/// What a buffer of capacity `cap` holding `s` (oldest first) holds after
/// `v` is pushed: `v` is appended, and the oldest value is dropped when the
/// buffer was full.
pub open spec fn pushed<T>(s: Seq<T>, cap: nat, v: T) -> Seq<T> {
    if s.len() < cap {
        s.push(v)
    } else {
        s.drop_first().push(v)
    }
}

/// What a buffer of capacity `cap` holds after `vals` are pushed in order,
/// starting empty.
pub open spec fn after_pushes<T>(cap: nat, vals: Seq<T>) -> Seq<T>
    decreases vals.len(),
{
    if vals.len() == 0 {
        Seq::empty()
    } else {
        pushed(after_pushes(cap, vals.drop_last()), cap, vals.last())
    }
}

/// Law: a ring buffer of capacity `cap` holds the last `cap` values pushed
/// into it (all of them while fewer were pushed), oldest first.
pub proof fn lemma_holds_last_values<T>(cap: nat, vals: Seq<T>)
    requires
        cap > 0,
    ensures
        after_pushes(cap, vals) == vals.subrange(
            if vals.len() > cap { vals.len() - cap } else { 0 },
            vals.len() as int,
        ),
    decreases vals.len(),
{
    if vals.len() > 0 {
        let p = vals.drop_last();
        lemma_holds_last_values(cap, p);
        if p.len() < cap {
            assert(after_pushes(cap, vals) =~= vals.subrange(0, vals.len() as int));
        } else {
            assert(after_pushes(cap, vals) =~= vals.subrange(vals.len() - cap, vals.len() as int));
        }
    } else {
        assert(after_pushes(cap, vals) =~= vals.subrange(0, 0));
    }
}

/// Fixed-size ring buffer for streaming computations.
#[derive(Debug)]
pub struct RingBuf<T: Copy> {
    buf: Vec<T>,
    cap: usize,
    head: usize,
    len: usize,
}

impl<T: Copy> RingBuf<T> {
    /// Capacity the buffer was created with.
    pub closed spec fn capacity(&self) -> nat {
        self.cap as nat
    }

    /// Internal consistency of the representation, kept by every operation.
    #[verifier::type_invariant]
    closed spec fn wf(&self) -> bool {
        &&& 0 < self.cap
        &&& self.buf@.len() == self.cap
        &&& self.head < self.cap
        &&& self.len <= self.cap
    }

    /// Physical slot of the oldest stored value.
    closed spec fn start(&self) -> int {
        if self.head >= self.len {
            self.head - self.len
        } else {
            self.head + self.cap - self.len
        }
    }

    /// Physical slot of the `i`-th stored value, counted from the oldest.
    closed spec fn slot(&self, i: int) -> int {
        if self.start() + i < self.cap {
            self.start() + i
        } else {
            self.start() + i - self.cap
        }
    }

    /// The stored values, oldest first.
    pub closed spec fn contents(&self) -> Seq<T> {
        Seq::new(self.len as nat, |i: int| self.buf@[self.slot(i)])
    }

    /// Create an empty buffer of capacity `cap`; every slot starts as `initial`.
    pub fn new(cap: usize, initial: T) -> (r: Self)
        requires
            cap > 0,
        ensures
            r.capacity() == cap,
            r@ == Seq::<T>::empty(),
    {
        let buf = vec![initial; cap];
        let r = RingBuf { buf, cap, head: 0, len: 0 };
        assert(r@ =~= Seq::<T>::empty());
        r
    }

    /// Push a value; returns the overwritten value if the buffer was full.
    pub fn push(&mut self, value: T) -> (overwritten: Option<T>)
        ensures
            final(self).capacity() == old(self).capacity(),
            final(self)@ == pushed(old(self)@, old(self).capacity(), value),
            overwritten == (if old(self)@.len() == old(self).capacity() {
                Some(old(self)@[0])
            } else {
                None
            }),
    {
        proof { use_type_invariant(&*self); }
        let ghost pre = *self;
        let full = self.is_full();
        let overwritten = if full {
            Some(self.buf[self.head])
        } else {
            None
        };
        self.buf[self.head] = value;
        self.head = if self.head + 1 == self.cap { 0 } else { self.head + 1 };
        if self.len < self.cap {
            self.len = self.len + 1;
        }
        proof {
            if full {
                assert(pre.start() == pre.head);
                assert(pre@[0] == pre.buf@[pre.head as int]);
            }
            assert(self@ =~= pushed(pre@, pre.capacity(), value));
        }
        overwritten
    }

    /// Current number of valid elements.
    pub fn len(&self) -> (n: usize)
        ensures
            n == self@.len(),
            n <= self.capacity(),
    {
        proof { use_type_invariant(self); }
        self.len
    }

    /// Whether the buffer holds as many values as its capacity.
    pub fn is_full(&self) -> (b: bool)
        ensures
            b == (self@.len() == self.capacity()),
    {
        proof { use_type_invariant(self); }
        self.len == self.cap
    }

    /// The stored values from oldest to newest.
    pub fn iter(&self) -> (v: Vec<T>)
        ensures
            v@ == self@,
    {
        proof { use_type_invariant(self); }
        let mut out: Vec<T> = Vec::new();
        let start = if self.head >= self.len { self.head - self.len } else { self.head + (self.cap - self.len) };
        let mut i: usize = 0;
        while i < self.len
            invariant
                0 < self.cap,
                self.buf@.len() == self.cap,
                self.head < self.cap,
                self.len <= self.cap,
                start == self.start(),
                i <= self.len,
                out@.len() == i,
                forall|j: int| 0 <= j < i ==> out@[j] == self@[j],
            decreases self.len - i,
        {
            let idx = if i < self.cap - start { start + i } else { i - (self.cap - start) };
            out.push(self.buf[idx]);
            i = i + 1;
        }
        assert(out@ =~= self@);
        out
    }

    /// The most recent element, if any.
    pub fn latest(&self) -> (r: Option<&T>)
        ensures
            self@.len() == 0 ==> r.is_none(),
            self@.len() > 0 ==> r == Some(&self@[self@.len() - 1]),
    {
        proof { use_type_invariant(self); }
        if self.len == 0 {
            None
        } else {
            let idx = if self.head == 0 { self.cap - 1 } else { self.head - 1 };
            Some(&self.buf[idx])
        }
    }
}

impl<T: Copy> Clone for RingBuf<T> {
    /// A copy with the same capacity and the same values.
    fn clone(&self) -> (r: Self)
        ensures
            r.capacity() == self.capacity(),
            r@ == self@,
    {
        proof { use_type_invariant(self); }
        let mut buf: Vec<T> = Vec::new();
        let mut i: usize = 0;
        while i < self.cap
            invariant
                self.buf@.len() == self.cap,
                i <= self.cap,
                buf@ == self.buf@.take(i as int),
            decreases self.cap - i,
        {
            buf.push(self.buf[i]);
            i = i + 1;
            assert(buf@ =~= self.buf@.take(i as int));
        }
        assert(buf@ =~= self.buf@);
        let r = RingBuf { buf, cap: self.cap, head: self.head, len: self.len };
        assert(r@ =~= self@);
        r
    }
}

impl<T: Copy> View for RingBuf<T> {
    type V = Seq<T>;

    open spec fn view(&self) -> Seq<T> {
        self.contents()
    }
}

} // verus!
