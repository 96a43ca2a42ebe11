//! Ops that only move frames around on the stack: they never look inside a
//! frame, so they are generic over the frame type.
use crate::stack::{
    Stack, STACK_SIZE, spec_push, spec_top, spec_pop, spec_push_all, spec_popped, spec_pop_n,
    lemma_push_all_step, lemma_pop_n_step,
};
use vstd::prelude::*;

verus! {

/// Number of channels in a frame.
pub const CHANNELS: usize = 2;

/// `dup`: the top frame again.
pub open spec fn spec_dup<F>(s: Seq<F>, silence: F) -> Seq<F> {
    spec_push(s, spec_top(s, silence))
}

/// `swap`: exchanges the two top frames.
pub open spec fn spec_swap<F>(s: Seq<F>, silence: F) -> Seq<F> {
    let a = spec_top(s, silence);
    let s1 = spec_pop(s);
    let b = spec_top(s1, silence);
    spec_push(spec_push(spec_pop(s1), a), b)
}

/// `rot`: the third frame moves to the top.
pub open spec fn spec_rot<F>(s: Seq<F>, silence: F) -> Seq<F> {
    let a = spec_top(s, silence);
    let s1 = spec_pop(s);
    let b = spec_top(s1, silence);
    let s2 = spec_pop(s1);
    let c = spec_top(s2, silence);
    spec_push(spec_push(spec_push(spec_pop(s2), b), a), c)
}

/// What `dig:n` pushes back after popping `n` frames: the frames above the
/// `n`-th in their order, then the `n`-th.
pub open spec fn spec_dig_pushes<F>(s: Seq<F>, silence: F, n: nat) -> Seq<F> {
    Seq::new(
        n,
        |k: int|
            if k < n - 1 {
                spec_popped(s, silence, n - 2 - k)
            } else {
                spec_popped(s, silence, n - 1)
            },
    )
}

/// `dig:n`: the `n`-th frame from the top moves to the top.
pub open spec fn spec_dig<F>(s: Seq<F>, silence: F, n: nat) -> Seq<F> {
    spec_push_all(spec_pop_n(s, n), spec_dig_pushes(s, silence, n))
}

/// What `bury:n` pushes back after popping `n` frames: the top frame first,
/// then the others in their order.
pub open spec fn spec_bury_pushes<F>(s: Seq<F>, silence: F, n: nat) -> Seq<F> {
    Seq::new(
        n,
        |k: int|
            if k == 0 {
                spec_popped(s, silence, 0)
            } else {
                spec_popped(s, silence, n - k)
            },
    )
}

/// `bury:n`: the top frame moves down to become the `n`-th from the top.
pub open spec fn spec_bury<F>(s: Seq<F>, silence: F, n: nat) -> Seq<F> {
    spec_push_all(spec_pop_n(s, n), spec_bury_pushes(s, silence, n))
}

/// Widens or narrows the stereo image of a frame by the width on top.
pub struct Width;

impl Width {
    pub fn new() -> (op: Self) {
        Width {}
    }
}

/// Pans both channels of a frame by the position on top.
pub struct Pan1;

impl Pan1 {
    pub fn new() -> (op: Self) {
        Pan1 {}
    }
}

/// Pans the left channels of two frames as a pair.
pub struct Pan2;

impl Pan2 {
    pub fn new() -> (op: Self) {
        Pan2 {}
    }
}

/// Pans the lefts and the rights of two frames as two pairs.
pub struct Pan3;

impl Pan3 {
    pub fn new() -> (op: Self) {
        Pan3 {}
    }
}

/// Does nothing.
pub struct Noop;

impl Noop {
    pub fn new() -> (op: Self) {
        Noop {}
    }

    pub fn perform<F: Copy>(&mut self, stack: &mut Stack<F>)
        ensures
            final(stack)@ == old(stack)@,
            final(stack).silence() == old(stack).silence(),
    {
    }
}

/// Duplicates the top frame.
pub struct Dup;

impl Dup {
    pub fn new() -> (op: Self) {
        Dup {}
    }

    pub fn perform<F: Copy>(&mut self, stack: &mut Stack<F>)
        ensures
            final(stack)@ == spec_dup(old(stack)@, old(stack).silence()),
            final(stack).silence() == old(stack).silence(),
    {
        let f = stack.peek();
        stack.push(f);
    }
}

/// Exchanges the two top frames.
pub struct Swap;

impl Swap {
    pub fn new() -> (op: Self) {
        Swap {}
    }

    pub fn perform<F: Copy>(&mut self, stack: &mut Stack<F>)
        ensures
            final(stack)@ == spec_swap(old(stack)@, old(stack).silence()),
            final(stack).silence() == old(stack).silence(),
    {
        let a = stack.pop();
        let b = stack.pop();
        stack.push(a);
        stack.push(b);
    }
}

/// Moves the third frame to the top.
pub struct Rot;

impl Rot {
    pub fn new() -> (op: Self) {
        Rot {}
    }

    pub fn perform<F: Copy>(&mut self, stack: &mut Stack<F>)
        ensures
            final(stack)@ == spec_rot(old(stack)@, old(stack).silence()),
            final(stack).silence() == old(stack).silence(),
    {
        let a = stack.pop();
        let b = stack.pop();
        let c = stack.pop();
        stack.push(b);
        stack.push(a);
        stack.push(c);
    }
}

/// Drops the top frame.
pub struct Pop;

impl Pop {
    pub fn new() -> (op: Self) {
        Pop {}
    }

    pub fn perform<F: Copy>(&mut self, stack: &mut Stack<F>)
        ensures
            final(stack)@ == spec_pop(old(stack)@),
            final(stack).silence() == old(stack).silence(),
    {
        stack.pop();
    }
}

/// Pops `depth` frames into `scratch` (top first).
fn pop_into<F: Copy>(stack: &mut Stack<F>, scratch: &mut Vec<F>, depth: usize)
    ensures
        final(stack)@ == spec_pop_n(old(stack)@, depth as nat),
        final(stack).silence() == old(stack).silence(),
        final(scratch)@ == Seq::new(
            depth as nat,
            |k: int| spec_popped(old(stack)@, old(stack).silence(), k),
        ),
{
    scratch.clear();
    let ghost s0 = stack@;
    let ghost silence = stack.silence();
    assert(spec_pop_n(s0, 0) =~= s0);
    let mut i: usize = 0;
    while i < depth
        invariant
            i <= depth,
            stack@ == spec_pop_n(s0, i as nat),
            stack.silence() == silence,
            scratch@ == Seq::new(i as nat, |k: int| spec_popped(s0, silence, k)),
        decreases depth - i,
    {
        proof {
            lemma_pop_n_step(s0, silence, i as nat);
        }
        let f = stack.pop();
        scratch.push(f);
        i = i + 1;
        assert(scratch@ =~= Seq::new(i as nat, |k: int| spec_popped(s0, silence, k)));
    }
}

/// Moves the `depth`-th frame from the top to the top.
pub struct Dig<F> {
    depth: usize,
    /// Room for the popped frames, reserved up front.
    scratch: Vec<F>,
}

impl<F: Copy> Dig<F> {
    pub fn new(depth: usize) -> (op: Self)
        ensures
            op.depth() == depth,
    {
        Dig { depth, scratch: Vec::with_capacity(depth) }
    }

    pub closed spec fn depth(&self) -> nat {
        self.depth as nat
    }

    /// Needs a positive depth: at depth zero there is no frame to move.
    pub fn perform(&mut self, stack: &mut Stack<F>)
        requires
            old(self).depth() > 0,
        ensures
            final(self).depth() == old(self).depth(),
            final(stack)@ == spec_dig(old(stack)@, old(stack).silence(), old(self).depth()),
            final(stack).silence() == old(stack).silence(),
    {
        let n = self.depth;
        let ghost s0 = stack@;
        let ghost silence = stack.silence();
        pop_into(stack, &mut self.scratch, n);
        let ghost rest = stack@;
        let ghost pushes = spec_dig_pushes(s0, silence, n as nat);
        assert(spec_push_all(rest, pushes.take(0)) =~= rest) by {
            assert(pushes.take(0) =~= Seq::<F>::empty());
            assert(rest + Seq::<F>::empty() =~= rest);
        }
        let mut j: usize = 0;
        while j + 1 < n
            invariant
                0 < n,
                j + 1 <= n,
                n == self.depth,
                self.scratch@ == Seq::new(n as nat, |k: int| spec_popped(s0, silence, k)),
                stack@ == spec_push_all(rest, pushes.take(j as int)),
                stack.silence() == silence,
                pushes == spec_dig_pushes(s0, silence, n as nat),
            decreases n - j,
        {
            let f = self.scratch[n - 2 - j];
            proof {
                lemma_push_all_step(rest, pushes.take(j as int), f);
                assert(pushes.take(j as int).push(f) =~= pushes.take(j + 1));
            }
            stack.push(f);
            j = j + 1;
        }
        let f = self.scratch[n - 1];
        proof {
            lemma_push_all_step(rest, pushes.take(j as int), f);
            assert(pushes.take(j as int).push(f) =~= pushes);
        }
        stack.push(f);
    }
}

/// Moves the top frame down to become the `depth`-th from the top.
pub struct Bury<F> {
    depth: usize,
    /// Room for the popped frames, reserved up front.
    scratch: Vec<F>,
}

impl<F: Copy> Bury<F> {
    pub fn new(depth: usize) -> (op: Self)
        ensures
            op.depth() == depth,
    {
        Bury { depth, scratch: Vec::with_capacity(depth) }
    }

    pub closed spec fn depth(&self) -> nat {
        self.depth as nat
    }

    /// Needs a positive depth: at depth zero there is no frame to move.
    pub fn perform(&mut self, stack: &mut Stack<F>)
        requires
            old(self).depth() > 0,
        ensures
            final(self).depth() == old(self).depth(),
            final(stack)@ == spec_bury(old(stack)@, old(stack).silence(), old(self).depth()),
            final(stack).silence() == old(stack).silence(),
    {
        let n = self.depth;
        let ghost s0 = stack@;
        let ghost silence = stack.silence();
        pop_into(stack, &mut self.scratch, n);
        let ghost rest = stack@;
        let ghost pushes = spec_bury_pushes(s0, silence, n as nat);
        let f = self.scratch[0];
        proof {
            lemma_push_all_step(rest, pushes.take(0), f);
            assert(pushes.take(0) =~= Seq::<F>::empty());
            assert(rest + Seq::<F>::empty() =~= rest);
            assert(pushes.take(0).push(f) =~= pushes.take(1));
        }
        stack.push(f);
        let mut j: usize = 1;
        while j < n
            invariant
                1 <= j <= n,
                n == self.depth,
                self.scratch@ == Seq::new(n as nat, |k: int| spec_popped(s0, silence, k)),
                stack@ == spec_push_all(rest, pushes.take(j as int)),
                stack.silence() == silence,
                pushes == spec_bury_pushes(s0, silence, n as nat),
            decreases n - j,
        {
            let f = self.scratch[n - j];
            proof {
                lemma_push_all_step(rest, pushes.take(j as int), f);
                assert(pushes.take(j as int).push(f) =~= pushes.take(j + 1));
            }
            stack.push(f);
            j = j + 1;
        }
        assert(pushes.take(n as int) =~= pushes);
    }
}

/// A frame holding the `c`-th sample of `f` in every channel.
pub open spec fn spec_spread<T>(f: [T; 2], c: int) -> [T; 2] {
    [f@[c], f@[c]]
}

/// `ch:c`: the top frame replaced by one holding its `c`-th sample in every
/// channel.
pub open spec fn spec_channel<T>(s: Seq<[T; 2]>, silence: [T; 2], c: int) -> Seq<[T; 2]> {
    spec_push(spec_pop(s), spec_spread(spec_top(s, silence), c))
}

/// Replaces the top frame by one that holds its `channel`-th sample in every
/// channel.
pub struct Channel {
    channel: usize,
}

impl Channel {
    pub fn new(channel: usize) -> (op: Self)
        ensures
            op.channel() == channel,
    {
        Channel { channel }
    }

    pub closed spec fn channel(&self) -> nat {
        self.channel as nat
    }

    /// Needs an existing channel: past the last one there is no sample to
    /// read.
    pub fn perform<T: Copy>(&mut self, stack: &mut Stack<[T; 2]>)
        requires
            old(self).channel() < CHANNELS,
        ensures
            final(self).channel() == old(self).channel(),
            final(stack)@ == spec_channel(old(stack)@, old(stack).silence(), old(self).channel() as int),
            final(stack).silence() == old(stack).silence(),
    {
        let frame = stack.pop();
        let x = frame[self.channel];
        stack.push([x, x]);
    }
}

/// `dup` pushes the top frame again, silence on an empty stack; the frames
/// below stay. A full stack is left as it is.
pub proof fn lemma_dup_pushes_top<F>(s: Seq<F>, silence: F)
    requires
        s.len() <= STACK_SIZE,
    ensures
        s.len() < STACK_SIZE ==> spec_dup(s, silence).len() == s.len() + 1
            && spec_dup(s, silence).drop_last() == s,
        0 < s.len() < STACK_SIZE ==> spec_dup(s, silence).last() == s[s.len() - 1],
        s.len() == 0 ==> spec_dup(s, silence) == seq![silence],
        s.len() == STACK_SIZE ==> spec_dup(s, silence) == s,
{
    assert(s.push(spec_top(s, silence)).drop_last() =~= s);
    assert(Seq::<F>::empty().push(silence) =~= seq![silence]);
}

/// `swap` exchanges the two top frames and leaves the others.
pub proof fn lemma_swap_exchanges<F>(s: Seq<F>, silence: F)
    requires
        2 <= s.len() <= STACK_SIZE,
    ensures
        spec_swap(s, silence) == s.take(s.len() - 2).push(s[s.len() - 1]).push(s[s.len() - 2]),
{
    let n = s.len();
    assert(spec_pop(s) =~= s.take(n - 1));
    assert(spec_pop(spec_pop(s)) =~= s.take(n - 2));
    assert(spec_swap(s, silence) =~= s.take(n - 2).push(s[n - 1]).push(s[n - 2]));
}

/// `rot` brings the third frame from the top up to the top, the two above
/// it moving down one place; the others stay.
pub proof fn lemma_rot_brings_up_third<F>(s: Seq<F>, silence: F)
    requires
        3 <= s.len() <= STACK_SIZE,
    ensures
        spec_rot(s, silence) == s.take(s.len() - 3).push(s[s.len() - 2]).push(s[s.len() - 1]).push(s[s.len() - 3]),
{
    let n = s.len();
    assert(spec_pop(s) =~= s.take(n - 1));
    assert(spec_pop(spec_pop(s)) =~= s.take(n - 2));
    assert(spec_pop(spec_pop(spec_pop(s))) =~= s.take(n - 3));
    assert(spec_rot(s, silence) =~= s.take(n - 3).push(s[n - 2]).push(s[n - 1]).push(s[n - 3]));
}

/// `pop` drops the top frame and leaves the others; an empty stack stays
/// empty.
pub proof fn lemma_pop_drops_top<F>(s: Seq<F>)
    ensures
        s.len() > 0 ==> spec_pop(s) == s.take(s.len() - 1),
        s.len() == 0 ==> spec_pop(s) == s,
{
    if s.len() > 0 {
        assert(s.drop_last() =~= s.take(s.len() - 1));
    }
}

/// `dig:n` takes the `n`-th frame from the top out of its place and puts
/// it on top; the others keep their order.
pub proof fn lemma_dig_takes_out<F>(s: Seq<F>, silence: F, n: nat)
    requires
        0 < n <= s.len() <= STACK_SIZE,
    ensures
        spec_dig(s, silence, n) == s.remove(s.len() - n).push(s[s.len() - n]),
{
    let m = s.len();
    let p = spec_dig_pushes(s, silence, n);
    assert(spec_pop_n(s, n) =~= s.take(m - n));
    assert(spec_push_all(s.take(m - n), p) == s.take(m - n) + p);
    assert forall|k: int| 0 <= k < n - 1 implies p[k] == s[m - n + 1 + k] by {}
    assert(p[n - 1] == s[m - n]);
    assert(s.take(m - n) + p =~= s.remove(m - n).push(s[m - n]));
}

/// `bury:n` takes the top frame down to become the `n`-th from the top;
/// the others keep their order.
pub proof fn lemma_bury_puts_down<F>(s: Seq<F>, silence: F, n: nat)
    requires
        0 < n <= s.len() <= STACK_SIZE,
    ensures
        spec_bury(s, silence, n) == s.take(s.len() - 1).insert(s.len() - n, s[s.len() - 1]),
{
    let m = s.len();
    let p = spec_bury_pushes(s, silence, n);
    assert(spec_pop_n(s, n) =~= s.take(m - n));
    assert(spec_push_all(s.take(m - n), p) == s.take(m - n) + p);
    assert(p[0] == s[m - 1]);
    assert forall|k: int| 1 <= k < n implies p[k] == s[m - n + k - 1] by {}
    assert(s.take(m - n) + p =~= s.take(m - 1).insert(m - n, s[m - 1]));
}

/// `ch:c` puts in place of the top frame one that holds the top frame's
/// `c`-th sample in both channels; the frames below stay.
pub proof fn lemma_channel_spreads<T>(s: Seq<[T; 2]>, silence: [T; 2], c: int)
    requires
        0 < s.len() <= STACK_SIZE,
        0 <= c < 2,
    ensures
        ({
            let r = spec_channel(s, silence, c);
            &&& r.len() == s.len()
            &&& r.take(s.len() - 1) == s.take(s.len() - 1)
            &&& r[s.len() - 1]@[0] == s[s.len() - 1]@[c]
            &&& r[s.len() - 1]@[1] == s[s.len() - 1]@[c]
        }),
{
    let r = spec_channel(s, silence, c);
    assert(r.take(s.len() - 1) =~= s.take(s.len() - 1));
}

/// Swapping twice restores every stack of at least two frames.
pub proof fn lemma_swap_twice<F>(s: Seq<F>, silence: F)
    requires
        2 <= s.len() <= STACK_SIZE,
    ensures
        spec_swap(spec_swap(s, silence), silence) == s,
{
    let n = s.len();
    assert(spec_pop(s) =~= s.take(n - 1));
    assert(spec_pop(spec_pop(s)) =~= s.take(n - 2));
    let t = spec_swap(s, silence);
    assert(t =~= s.take(s.len() - 2).push(s[s.len() - 1]).push(s[s.len() - 2]));
    assert(spec_swap(t, silence) =~= s);
}

/// Rotating three times restores every stack of at least three frames.
pub proof fn lemma_rot_thrice<F>(s: Seq<F>, silence: F)
    requires
        3 <= s.len() <= STACK_SIZE,
    ensures
        spec_rot(spec_rot(spec_rot(s, silence), silence), silence) == s,
{
    let n = s.len();
    let base = s.take(n - 3);
    assert(spec_pop(s) =~= s.take(n - 1));
    assert(spec_pop(spec_pop(s)) =~= s.take(n - 2));
    assert(spec_pop(spec_pop(spec_pop(s))) =~= base);
    let t1 = spec_rot(s, silence);
    assert(spec_pop(t1) =~= base.push(s[n - 2]).push(s[n - 1]));
    assert(spec_pop(spec_pop(t1)) =~= base.push(s[n - 2]));
    assert(spec_pop(spec_pop(spec_pop(t1))) =~= base);
    assert(t1 =~= base.push(s[n - 2]).push(s[n - 1]).push(s[n - 3]));
    let t2 = spec_rot(t1, silence);
    assert(t2 =~= base.push(s[n - 1]).push(s[n - 3]).push(s[n - 2]));
    assert(spec_pop(t2) =~= base.push(s[n - 1]).push(s[n - 3]));
    assert(spec_pop(spec_pop(t2)) =~= base.push(s[n - 1]));
    assert(spec_pop(spec_pop(spec_pop(t2))) =~= base);
    let t3 = spec_rot(t2, silence);
    assert(t3 =~= s);
}

/// Duplicating then popping restores every stack with room for one more
/// frame.
pub proof fn lemma_dup_then_pop<F>(s: Seq<F>, silence: F)
    requires
        s.len() < STACK_SIZE,
    ensures
        spec_pop(spec_dup(s, silence)) == s,
{
    assert(s.push(spec_top(s, silence)).drop_last() =~= s);
}

/// A push that fits is undone by a pop, which returns the pushed frame.
pub proof fn lemma_push_then_pop<F>(s: Seq<F>, f: F, silence: F)
    requires
        s.len() < STACK_SIZE,
    ensures
        spec_pop(spec_push(s, f)) == s,
        spec_top(spec_push(s, f), silence) == f,
{
    assert(s.push(f).drop_last() =~= s);
}

/// `swap` is `dig:2` and `rot` is `dig:3`.
pub proof fn lemma_swap_rot_are_digs<F>(s: Seq<F>, silence: F)
    ensures
        spec_swap(s, silence) == spec_dig(s, silence, 2),
        spec_rot(s, silence) == spec_dig(s, silence, 3),
{
    let p2 = spec_dig_pushes(s, silence, 2);
    assert(p2 =~= seq![spec_popped(s, silence, 0), spec_popped(s, silence, 1)]);
    lemma_pop_n_step(s, silence, 0);
    lemma_pop_n_step(s, silence, 1);
    lemma_pop_n_step(s, silence, 2);
    assert(spec_pop_n(s, 0) =~= s);
    let r2 = spec_pop_n(s, 2);
    assert(spec_push_all(r2, p2) == spec_push(spec_push(r2, p2[0]), p2[1])) by {
        lemma_push_all_step(r2, Seq::empty(), p2[0]);
        lemma_push_all_step(r2, seq![p2[0]], p2[1]);
        assert(Seq::<F>::empty().push(p2[0]) =~= seq![p2[0]]);
        assert(seq![p2[0]].push(p2[1]) =~= p2);
        assert(r2 + Seq::<F>::empty() =~= r2);
    }
    let p3 = spec_dig_pushes(s, silence, 3);
    assert(p3 =~= seq![
        spec_popped(s, silence, 1),
        spec_popped(s, silence, 0),
        spec_popped(s, silence, 2),
    ]);
    let r3 = spec_pop_n(s, 3);
    assert(spec_push_all(r3, p3) == spec_push(spec_push(spec_push(r3, p3[0]), p3[1]), p3[2])) by {
        lemma_push_all_step(r3, Seq::empty(), p3[0]);
        lemma_push_all_step(r3, seq![p3[0]], p3[1]);
        lemma_push_all_step(r3, seq![p3[0], p3[1]], p3[2]);
        assert(Seq::<F>::empty().push(p3[0]) =~= seq![p3[0]]);
        assert(seq![p3[0]].push(p3[1]) =~= seq![p3[0], p3[1]]);
        assert(seq![p3[0], p3[1]].push(p3[2]) =~= p3);
        assert(r3 + Seq::<F>::empty() =~= r3);
    }
}

/// Burying the top frame `n` deep undoes digging the `n`-th frame up, on
/// every stack that holds at least `n` frames.
pub proof fn lemma_bury_undoes_dig<F>(s: Seq<F>, silence: F, n: nat)
    requires
        0 < n <= s.len(),
        s.len() <= STACK_SIZE,
    ensures
        spec_bury(spec_dig(s, silence, n), silence, n) == s,
{
    let l = s.len();
    let rest = s.take(l - n);
    let pushes = spec_dig_pushes(s, silence, n);
    assert(spec_pop_n(s, n) =~= rest);
    let d = spec_dig(s, silence, n);
    assert(d =~= rest + pushes);
    assert(spec_pop_n(d, n) =~= rest);
    let bp = spec_bury_pushes(d, silence, n);
    assert(spec_bury(d, silence, n) =~= rest + bp);
    assert forall|k: int| 0 <= k < n implies #[trigger] bp[k] == s[l - n + k] by {
        if k == 0 {
            assert(bp[k] == d[d.len() - 1]);
        } else {
            assert(bp[k] == d[d.len() - 1 - (n - k)]);
        }
    }
    assert(rest + bp =~= s);
}

} // verus!
