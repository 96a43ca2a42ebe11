//! A fixed length ring buffer: pushing at one end drops the element at the
//! other end.
use vstd::prelude::*;

verus! {

pub struct Buffer<T> {
    data: Vec<T>,
    /// Physical position of the logically first element.
    cursor: usize,
    len: usize,
}

impl<T> View for Buffer<T> {
    type V = Seq<T>;

    /// The elements in logical order, oldest first: element `i` sits at
    /// physical position `(cursor + i) % len`.
    closed spec fn view(&self) -> Seq<T> {
        Seq::new(
            self.len as nat,
            |i: int| self.data@[(self.cursor + i) % (self.len as int)],
        )
    }
}

impl<T> Buffer<T> {
    /// The buffer's internal invariant.
    pub closed spec fn wf(&self) -> bool {
        &&& self.data@.len() == self.len
        &&& (self.len == 0 ==> self.cursor == 0)
        &&& (self.len > 0 ==> self.cursor < self.len)
    }

    /// The logical position that index `i` designates: indices wrap around.
    pub open spec fn wrap(&self, i: int) -> int {
        i % (self@.len() as int)
    }
}

impl<T: Copy> Buffer<T> {
    /// A buffer of `len` copies of `z`.
    pub fn new(z: T, len: usize) -> (b: Self)
        ensures
            b.wf(),
            b@ == Seq::new(len as nat, |i: int| z),
    {
        let mut data: Vec<T> = Vec::with_capacity(len);
        let mut i: usize = 0;
        while i < len
            invariant
                i <= len,
                data@ == Seq::new(i as nat, |k: int| z),
            decreases len - i,
        {
            data.push(z);
            i = i + 1;
            assert(data@ =~= Seq::new(i as nat, |k: int| z));
        }
        let b = Buffer { data, cursor: 0, len };
        assert forall|k: int| 0 <= k < len implies #[trigger] b@[k] == z by {
            vstd::arithmetic::div_mod::lemma_small_mod(k as nat, len as nat);
        }
        assert(b@ =~= Seq::new(len as nat, |k: int| z));
        b
    }

    /// Number of elements.
    pub fn len(&self) -> (n: usize)
        requires
            self.wf(),
        ensures
            n == self@.len(),
    {
        self.len
    }

    /// Takes the contents of `other` if it has the same length, leaving ours
    /// in it; reports whether it did.
    pub fn steal_same_size(&mut self, other: &mut Buffer<T>) -> (stolen: bool)
        requires
            old(self).wf(),
            old(other).wf(),
        ensures
            final(self).wf(),
            final(other).wf(),
            stolen == (old(self)@.len() == old(other)@.len()),
            stolen ==> final(self)@ == old(other)@ && final(other)@ == old(self)@,
            !stolen ==> final(self)@ == old(self)@ && final(other)@ == old(other)@,
    {
        if self.len == other.len {
            std::mem::swap(self, other);
            true
        } else {
            false
        }
    }

    /// Replaces the oldest element by `x`, which becomes the newest.
    pub fn push_back(&mut self, x: T)
        requires
            old(self).wf(),
            old(self)@.len() > 0,
        ensures
            final(self).wf(),
            final(self)@ == old(self)@.drop_first().push(x),
    {
        let cursor = self.cursor;
        self.data.set(cursor, x);
        self.cursor = if cursor + 1 == self.len {
            0
        } else {
            cursor + 1
        };
        proof {
            let n = self.len as int;
            let c = cursor as int;
            assert forall|i: int| 0 <= i < n implies #[trigger] self@[i] == old(self)@.drop_first().push(x)[i] by {
                if i < n - 1 {
                    lemma_wrap_shift(c, i, n);
                    assert((c + 1 + i) % n != c) by {
                        lemma_wrap_distinct(c, i + 1, n);
                    }
                } else {
                    lemma_wrap_last(c, n);
                }
            }
            assert(self@ =~= old(self)@.drop_first().push(x));
        }
    }

    /// Replaces the newest element by `x`, which becomes the oldest.
    pub fn push_front(&mut self, x: T)
        requires
            old(self).wf(),
            old(self)@.len() > 0,
        ensures
            final(self).wf(),
            final(self)@ == seq![x] + old(self)@.drop_last(),
    {
        let cursor = if self.cursor == 0 {
            self.len - 1
        } else {
            self.cursor - 1
        };
        self.data.set(cursor, x);
        self.cursor = cursor;
        proof {
            let n = self.len as int;
            let c = cursor as int;
            let oc = old(self).cursor as int;
            assert(oc == (c + 1) % n) by {
                if c + 1 == n {
                    vstd::arithmetic::div_mod::lemma_mod_self_0(n);
                } else {
                    vstd::arithmetic::div_mod::lemma_small_mod((c + 1) as nat, n as nat);
                }
            }
            assert forall|i: int| 0 <= i < n implies #[trigger] self@[i] == (seq![x] + old(self)@.drop_last())[i] by {
                if i == 0 {
                    vstd::arithmetic::div_mod::lemma_small_mod(c as nat, n as nat);
                } else {
                    lemma_wrap_shift(c, i - 1, n);
                    assert((c + i) % n != c) by {
                        lemma_wrap_distinct(c, i, n);
                    }
                }
            }
            assert(self@ =~= seq![x] + old(self)@.drop_last());
        }
    }

    /// The element at logical index `i`, wrapping around.
    pub fn index(&self, i: usize) -> (r: &T)
        requires
            self.wf(),
            self@.len() > 0,
        ensures
            *r == self@[self.wrap(i as int)],
    {
        let n = self.len;
        let k = wrap_add(self.cursor, i % n, n);
        proof {
            lemma_wrap_index(self.cursor as int, i as int, n as int);
        }
        &self.data[k]
    }

    /// Overwrites the element at logical index `i`, wrapping around.
    pub fn set(&mut self, i: usize, x: T)
        requires
            old(self).wf(),
            old(self)@.len() > 0,
        ensures
            final(self).wf(),
            final(self)@ == old(self)@.update(old(self).wrap(i as int), x),
    {
        let n = self.len;
        let k = wrap_add(self.cursor, i % n, n);
        proof {
            lemma_wrap_index(self.cursor as int, i as int, n as int);
        }
        self.data.set(k, x);
        proof {
            let c = self.cursor as int;
            let w = (i as int) % (n as int);
            assert forall|j: int| 0 <= j < n implies #[trigger] self@[j] == old(self)@.update(w, x)[j] by {
                lemma_wrap_index(c, j, n as int);
                if j != w {
                    vstd::arithmetic::div_mod::lemma_small_mod(j as nat, n as nat);
                    lemma_wrap_distinct_pair(c, j, w, n as int);
                }
            }
            assert(self@ =~= old(self)@.update(w, x));
        }
    }

    /// An iterator over the elements, oldest first.
    pub fn iter<'a>(&'a self) -> (it: Iter<'a, T>)
        requires
            self.wf(),
        ensures
            it.buffer() == self,
            it.position() == 0,
    {
        Iter { buffer: self, index: 0 }
    }
}

/// Walks the elements of a buffer in logical order.
pub struct Iter<'a, T> {
    buffer: &'a Buffer<T>,
    index: usize,
}

impl<'a, T> Iter<'a, T> {
    /// The buffer walked.
    pub closed spec fn buffer(&self) -> &'a Buffer<T> {
        self.buffer
    }

    /// How many elements were handed out so far.
    pub closed spec fn position(&self) -> int {
        self.index as int
    }
}

impl<'a, T: Copy> Iter<'a, T> {
    /// The next element, or `None` once every element was handed out.
    pub fn next(&mut self) -> (r: Option<&'a T>)
        requires
            old(self).buffer().wf(),
            old(self).position() <= old(self).buffer()@.len(),
        ensures
            final(self).buffer() == old(self).buffer(),
            final(self).position() <= final(self).buffer()@.len(),
            old(self).position() < old(self).buffer()@.len() ==> {
                &&& r == Some(&old(self).buffer()@[old(self).position()])
                &&& final(self).position() == old(self).position() + 1
            },
            old(self).position() == old(self).buffer()@.len() ==> {
                &&& r is None
                &&& final(self).position() == old(self).position()
            },
    {
        if self.index < self.buffer.len {
            let x = self.buffer.index(self.index);
            proof {
                vstd::arithmetic::div_mod::lemma_small_mod(
                    self.index as nat,
                    self.buffer.len as nat,
                );
            }
            self.index = self.index + 1;
            Some(x)
        } else {
            None
        }
    }
}

/// `(c + a) % n` without overflow.
fn wrap_add(c: usize, a: usize, n: usize) -> (k: usize)
    requires
        c < n,
        a < n,
    ensures
        k == (c + a) % (n as int),
{
    if c >= n - a {
        proof {
            vstd::arithmetic::div_mod::lemma_mod_sub_multiples_vanish(c + a, n as int);
            vstd::arithmetic::div_mod::lemma_small_mod((c + a - n) as nat, n as nat);
        }
        c - (n - a)
    } else {
        proof {
            vstd::arithmetic::div_mod::lemma_small_mod((c + a) as nat, n as nat);
        }
        c + a
    }
}

proof fn lemma_wrap_index(c: int, i: int, n: int)
    requires
        n > 0,
        0 <= c < n,
        0 <= i,
    ensures
        (c % n + i % n) % n == (c + i % n) % n,
        0 <= (c + i % n) % n < n,
{
    vstd::arithmetic::div_mod::lemma_small_mod(c as nat, n as nat);
    vstd::arithmetic::div_mod::lemma_mod_bound(c + i % n, n);
    vstd::arithmetic::div_mod::lemma_mod_bound(i, n);
}

proof fn lemma_wrap_shift(c: int, i: int, n: int)
    requires
        n > 0,
        0 <= c < n,
        0 <= i < n - 1,
    ensures
        ((if c + 1 == n { 0 } else { c + 1 }) + i) % n == (c + (i + 1)) % n,
{
    if c + 1 == n {
        vstd::arithmetic::div_mod::lemma_small_mod(i as nat, n as nat);
        vstd::arithmetic::div_mod::lemma_mod_add_multiples_vanish(i, n);
        assert(c + (i + 1) == i + n);
    }
}

proof fn lemma_wrap_last(c: int, n: int)
    requires
        n > 0,
        0 <= c < n,
    ensures
        ((if c + 1 == n { 0 } else { c + 1 }) + (n - 1)) % n == c,
{
    if c + 1 == n {
        vstd::arithmetic::div_mod::lemma_small_mod((n - 1) as nat, n as nat);
    } else {
        assert(c + 1 + (n - 1) == c + n);
        vstd::arithmetic::div_mod::lemma_mod_add_multiples_vanish(c, n);
        vstd::arithmetic::div_mod::lemma_small_mod(c as nat, n as nat);
    }
}

proof fn lemma_wrap_distinct(c: int, i: int, n: int)
    requires
        n > 0,
        0 <= c < n,
        0 < i < n,
    ensures
        (c + i) % n != c,
{
    if c + i < n {
        vstd::arithmetic::div_mod::lemma_small_mod((c + i) as nat, n as nat);
    } else {
        vstd::arithmetic::div_mod::lemma_mod_sub_multiples_vanish(c + i, n);
        vstd::arithmetic::div_mod::lemma_small_mod((c + i - n) as nat, n as nat);
    }
}

proof fn lemma_wrap_distinct_pair(c: int, j: int, w: int, n: int)
    requires
        n > 0,
        0 <= c < n,
        0 <= j < n,
        0 <= w < n,
        j != w,
    ensures
        (c + j) % n != (c + w) % n,
{
    if c + j < n {
        vstd::arithmetic::div_mod::lemma_small_mod((c + j) as nat, n as nat);
    } else {
        vstd::arithmetic::div_mod::lemma_mod_sub_multiples_vanish(c + j, n);
        vstd::arithmetic::div_mod::lemma_small_mod((c + j - n) as nat, n as nat);
    }
    if c + w < n {
        vstd::arithmetic::div_mod::lemma_small_mod((c + w) as nat, n as nat);
    } else {
        vstd::arithmetic::div_mod::lemma_mod_sub_multiples_vanish(c + w, n);
        vstd::arithmetic::div_mod::lemma_small_mod((c + w - n) as nat, n as nat);
    }
}

} // verus!
