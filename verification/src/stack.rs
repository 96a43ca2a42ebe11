//! The frame stack through which ops talk to each other, and the ops that
//! only rearrange frames on it.
use vstd::prelude::*;

verus! {

/// How many frames the stack can hold.
pub const STACK_SIZE: usize = 16;

/// What a push leaves on a stack whose frames are `s`: the frame goes on top
/// unless the stack is full, in which case the push is ignored.
pub open spec fn spec_push<F>(s: Seq<F>, f: F) -> Seq<F> {
    if s.len() < STACK_SIZE {
        s.push(f)
    } else {
        s
    }
}

/// The frame a pop returns: the top frame, or silence on an empty stack.
pub open spec fn spec_top<F>(s: Seq<F>, silence: F) -> F {
    if s.len() > 0 {
        s.last()
    } else {
        silence
    }
}

/// What a pop leaves on the stack.
pub open spec fn spec_pop<F>(s: Seq<F>) -> Seq<F> {
    if s.len() > 0 {
        s.drop_last()
    } else {
        s
    }
}

/// Pushing the frames `xs` one after another: as many as fit are kept.
pub open spec fn spec_push_all<F>(s: Seq<F>, xs: Seq<F>) -> Seq<F> {
    if s.len() >= STACK_SIZE {
        s
    } else if xs.len() <= STACK_SIZE - s.len() {
        s + xs
    } else {
        s + xs.take(STACK_SIZE - s.len())
    }
}

/// The `i`-th frame that repeated pops return, counting from the top (0):
/// silence once the stack is exhausted.
pub open spec fn spec_popped<F>(s: Seq<F>, silence: F, i: int) -> F {
    if 0 <= i < s.len() {
        s[s.len() - 1 - i]
    } else {
        silence
    }
}

/// What `n` pops leave on the stack.
pub open spec fn spec_pop_n<F>(s: Seq<F>, n: nat) -> Seq<F> {
    if n >= s.len() {
        Seq::empty()
    } else {
        s.take(s.len() - n)
    }
}

/// Pushing one more frame after a run of pushes is the same as pushing the
/// extended run.
pub proof fn lemma_push_all_step<F>(s: Seq<F>, xs: Seq<F>, x: F)
    ensures
        spec_push(spec_push_all(s, xs), x) == spec_push_all(s, xs.push(x)),
{
    if s.len() < STACK_SIZE {
        if xs.len() < STACK_SIZE - s.len() {
            assert(xs.push(x).len() <= STACK_SIZE - s.len());
            assert((s + xs).push(x) =~= s + xs.push(x));
        } else if xs.len() == STACK_SIZE - s.len() {
            assert(xs.push(x).take(STACK_SIZE - s.len()) =~= xs);
        } else {
            assert(xs.push(x).take(STACK_SIZE - s.len()) =~= xs.take(STACK_SIZE - s.len()));
        }
    }
}

/// One more pop after `n` pops.
pub proof fn lemma_pop_n_step<F>(s: Seq<F>, silence: F, n: nat)
    ensures
        spec_pop(spec_pop_n(s, n)) == spec_pop_n(s, n + 1),
        spec_top(spec_pop_n(s, n), silence) == spec_popped(s, silence, n as int),
{
    if n + 1 < s.len() {
        assert(s.take(s.len() - n).drop_last() =~= s.take(s.len() - (n + 1)));
    } else if n + 1 == s.len() {
        assert(s.take(s.len() - n).drop_last() =~= Seq::<F>::empty());
    }
}

/// Simple fixed capacity stack of frames tolerant to over- and underflows.
pub struct Stack<F> {
    /// The frames on the stack, bottom first; room for `STACK_SIZE` of them
    /// is reserved up front so that pushes never allocate.
    frames: Vec<F>,
    /// What a pop from an empty stack returns.
    silence: F,
}

impl<F> View for Stack<F> {
    type V = Seq<F>;

    /// The frames on the stack, bottom first.
    closed spec fn view(&self) -> Seq<F> {
        self.frames@
    }
}

impl<F> Stack<F> {
    /// A stack never holds more than `STACK_SIZE` frames.
    #[verifier::type_invariant]
    spec fn within_capacity(&self) -> bool {
        self.frames@.len() <= STACK_SIZE
    }

    /// The frame that stands for silence.
    pub closed spec fn silence(&self) -> F {
        self.silence
    }
}

impl<F: Copy> Stack<F> {
    /// An empty stack whose underflows yield `silence`.
    pub fn new(silence: F) -> (s: Self)
        ensures
            s@ == Seq::<F>::empty(),
            s.silence() == silence,
            s@.len() <= STACK_SIZE,
    {
        Stack { frames: Vec::with_capacity(STACK_SIZE), silence }
    }

    /// Number of frames on the stack.
    pub fn depth(&self) -> (n: usize)
        ensures
            n == self@.len(),
            n <= STACK_SIZE,
    {
        proof {
            use_type_invariant(self);
        }
        self.frames.len()
    }

    /// Drops every frame.
    pub fn reset(&mut self)
        ensures
            final(self)@ == Seq::<F>::empty(),
            final(self).silence() == old(self).silence(),
            old(self)@.len() <= STACK_SIZE,
    {
        proof {
            use_type_invariant(&*self);
        }
        let mut frames: Vec<F> = Vec::new();
        std::mem::swap(&mut frames, &mut self.frames);
        frames.clear();
        self.frames = frames;
    }

    /// The top frame, or silence when the stack is empty.
    pub fn peek(&self) -> (f: F)
        ensures
            f == spec_top(self@, self.silence()),
            self@.len() <= STACK_SIZE,
    {
        proof {
            use_type_invariant(self);
        }
        let n = self.frames.len();
        if n >= 1 {
            self.frames[n - 1]
        } else {
            self.silence
        }
    }

    /// Removes and returns the top frame; an empty stack stays empty and
    /// yields silence.
    pub fn pop(&mut self) -> (f: F)
        ensures
            f == spec_top(old(self)@, old(self).silence()),
            final(self)@ == spec_pop(old(self)@),
            final(self).silence() == old(self).silence(),
            old(self)@.len() <= STACK_SIZE,
            final(self)@.len() <= STACK_SIZE,
    {
        proof {
            use_type_invariant(&*self);
        }
        let mut frames: Vec<F> = Vec::new();
        std::mem::swap(&mut frames, &mut self.frames);
        let top = frames.pop();
        self.frames = frames;
        match top {
            Some(f) => f,
            None => self.silence,
        }
    }

    /// Puts a frame on top; a full stack ignores it.
    pub fn push(&mut self, f: F)
        ensures
            final(self)@ == spec_push(old(self)@, f),
            final(self).silence() == old(self).silence(),
            old(self)@.len() <= STACK_SIZE,
            final(self)@.len() <= STACK_SIZE,
    {
        proof {
            use_type_invariant(&*self);
        }
        if self.frames.len() < STACK_SIZE {
            let mut frames: Vec<F> = Vec::new();
            std::mem::swap(&mut frames, &mut self.frames);
            frames.push(f);
            self.frames = frames;
        }
    }
}

} // verus!
