//! Rhythm and value patterns: steps, groups that share a step, alternatives
//! taken one per cycle, repeats and Euclidean rhythms. A pattern is
//! compiled to the cells of each cycle; where a cell falls within the cycle
//! is given by its path: at each level, which of how many parts it takes.
use vstd::arithmetic::div_mod::{lemma_fundamental_div_mod, lemma_mod_multiples_basic};
use crate::text::chars_of;
use crate::scale::{decimal_value, is_digit, lemma_decimal_bound, lemma_decimal_prefix};
use vstd::prelude::*;

verus! {

/// A node of a pattern: one step, a group that splits its step evenly among
/// its elements, or alternatives of which cycle `c` takes number
/// `c % count`.
pub enum PatternElement<T> {
    Atom(T),
    Group(Vec<PatternElement<T>>),
    Alternate(Vec<Vec<PatternElement<T>>>),
}

/// A step of a parsed pattern: a gate that is on or off, a hold of the
/// value before it (`_`), or a value written at a range of characters of
/// the pattern text.
#[derive(Clone, Copy, Debug, PartialEq, Eq)]
pub enum Step {
    On,
    Off,
    Hold,
    Value(usize, usize),
}

/// A pattern node as a value.
pub enum PatternTree<T> {
    Atom(T),
    Group(Seq<PatternTree<T>>),
    Alternate(Seq<Seq<PatternTree<T>>>),
}

/// The value of a pattern node.
pub open spec fn tree_of<T>(e: PatternElement<T>) -> PatternTree<T>
    decreases e, 0int,
{
    match e {
        PatternElement::Atom(v) => PatternTree::Atom(v),
        PatternElement::Group(es) => {
            proof {
                assert(decreases_to!(e => es));
                assert(decreases_to!(es => es@));
            }
            PatternTree::Group(trees_of(es@, es@.len() as int))
        },
        PatternElement::Alternate(alts) => {
            proof {
                assert(decreases_to!(e => alts));
                assert(decreases_to!(alts => alts@));
            }
            PatternTree::Alternate(alt_trees_of(alts@, alts@.len() as int))
        },
    }
}

/// The values of the first `k` nodes.
pub open spec fn trees_of<T>(s: Seq<PatternElement<T>>, k: int) -> Seq<PatternTree<T>>
    decreases s, k,
{
    if k <= 0 || k > s.len() {
        Seq::empty()
    } else {
        trees_of(s, k - 1).push(tree_of(s[k - 1]))
    }
}

/// The values of the first `k` alternatives.
pub open spec fn alt_trees_of<T>(a: Seq<Vec<PatternElement<T>>>, k: int) -> Seq<Seq<PatternTree<T>>>
    decreases a, k,
{
    if k <= 0 || k > a.len() {
        Seq::empty()
    } else {
        proof {
            assert(decreases_to!(a => a[k - 1]));
            assert(decreases_to!(a[k - 1] => a[k - 1]@));
        }
        alt_trees_of(a, k - 1).push(trees_of(a[k - 1]@, a[k - 1]@.len() as int))
    }
}

/// The values of a sequence of nodes.
pub open spec fn trees<T>(s: Seq<PatternElement<T>>) -> Seq<PatternTree<T>> {
    trees_of(s, s.len() as int)
}

pub proof fn lemma_trees_of<T>(s: Seq<PatternElement<T>>, k: int)
    requires
        0 <= k <= s.len(),
    ensures
        trees_of(s, k).len() == k,
        forall|i: int| 0 <= i < k ==> #[trigger] trees_of(s, k)[i] == tree_of(s[i]),
    decreases k,
{
    if k > 0 {
        lemma_trees_of(s, k - 1);
    }
}

pub proof fn lemma_alt_trees_of<T>(a: Seq<Vec<PatternElement<T>>>, k: int)
    requires
        0 <= k <= a.len(),
    ensures
        alt_trees_of(a, k).len() == k,
        forall|i: int| 0 <= i < k ==> #[trigger] alt_trees_of(a, k)[i] == trees(a[i]@),
    decreases k,
{
    if k > 0 {
        lemma_alt_trees_of(a, k - 1);
    }
}

pub open spec fn spec_gcd(a: nat, b: nat) -> nat
    decreases b,
{
    if b == 0 {
        a
    } else {
        spec_gcd(b, a % b)
    }
}

/// Least common multiple, 0 when either is 0.
pub open spec fn spec_lcm(a: nat, b: nat) -> nat {
    if a == 0 || b == 0 {
        0
    } else {
        a / spec_gcd(a, b) * b
    }
}

/// `d` is positive and divides `x`.
pub open spec fn divides(d: nat, x: nat) -> bool {
    d > 0 && x % d == 0
}

proof fn lemma_divides_multiple(d: nat, k: nat)
    requires
        d > 0,
    ensures
        divides(d, k * d),
        divides(d, d * k),
{
    lemma_mod_multiples_basic(k as int, d as int);
    assert(k * d == d * k) by (nonlinear_arith);
}

proof fn lemma_divides_quotient(d: nat, x: nat)
    requires
        divides(d, x),
    ensures
        x == d * (x / d),
{
    lemma_fundamental_div_mod(x as int, d as int);
}

proof fn lemma_divides_linear(g: nat, x: nat, y: nat, q: nat)
    requires
        divides(g, x),
        divides(g, y),
    ensures
        divides(g, q * x + y),
{
    lemma_divides_quotient(g, x);
    lemma_divides_quotient(g, y);
    let kx = x / g;
    let ky = y / g;
    assert(q * x + y == (q * kx + ky) * g) by (nonlinear_arith)
        requires
            x == g * kx,
            y == g * ky,
    ;
    lemma_divides_multiple(g, (q * kx + ky) as nat);
}

proof fn lemma_divides_trans(a: nat, b: nat, c: nat)
    requires
        divides(a, b),
        divides(b, c),
    ensures
        divides(a, c),
{
    lemma_divides_quotient(a, b);
    lemma_divides_quotient(b, c);
    let kb = b / a;
    let kc = c / b;
    assert(c == (kb * kc) * a) by (nonlinear_arith)
        requires
            b == a * kb,
            c == b * kc,
    ;
    lemma_divides_multiple(a, kb * kc);
}

proof fn lemma_divides_le(d: nat, x: nat)
    requires
        divides(d, x),
        x > 0,
    ensures
        d <= x,
{
    lemma_divides_quotient(d, x);
    let k = x / d;
    assert(d <= x) by (nonlinear_arith)
        requires
            x == d * k,
            x > 0,
            d > 0,
    ;
}

/// The greatest common divisor divides both.
pub proof fn lemma_gcd_divides(a: nat, b: nat)
    requires
        a > 0 || b > 0,
    ensures
        divides(spec_gcd(a, b), a),
        divides(spec_gcd(a, b), b),
    decreases b,
{
    if b == 0 {
        lemma_divides_multiple(a, 1);
        lemma_divides_multiple(a, 0);
    } else {
        let r = a % b;
        lemma_gcd_divides(b, r);
        let g = spec_gcd(b, r);
        lemma_fundamental_div_mod(a as int, b as int);
        lemma_divides_linear(g, b, r, a / b);
        assert(a == (a / b) * b + r) by (nonlinear_arith)
            requires
                a == b * (a / b) + r,
        ;
    }
}

/// The least common multiple of positive numbers is a positive common
/// multiple of both.
pub proof fn lemma_lcm(a: nat, b: nat)
    requires
        a > 0,
        b > 0,
    ensures
        divides(a, spec_lcm(a, b)),
        divides(b, spec_lcm(a, b)),
        spec_lcm(a, b) >= a,
        spec_lcm(a, b) >= b,
{
    lemma_gcd_divides(a, b);
    let g = spec_gcd(a, b);
    lemma_divides_quotient(g, a);
    lemma_divides_quotient(g, b);
    let ka = a / g;
    let kb = b / g;
    let l = ka * b;
    assert(spec_lcm(a, b) == l);
    assert(l == kb * a && ka >= 1 && kb >= 1 && l > 0) by (nonlinear_arith)
        requires
            a == g * ka,
            b == g * kb,
            a > 0,
            b > 0,
            l == ka * b,
    ;
    lemma_divides_multiple(b, ka);
    lemma_divides_multiple(a, kb);
    lemma_divides_le(a, l);
    lemma_divides_le(b, l);
}

fn gcd(a: usize, b: usize) -> (r: usize)
    ensures
        r == spec_gcd(a as nat, b as nat),
{
    let ghost g = spec_gcd(a as nat, b as nat);
    let mut a = a;
    let mut b = b;
    while b != 0
        invariant
            spec_gcd(a as nat, b as nat) == g,
        decreases b,
    {
        let r = a % b;
        a = b;
        b = r;
    }
    a
}

/// Least common multiple; `None` where it does not fit in a `usize`.
fn lcm(a: usize, b: usize) -> (r: Option<usize>)
    ensures
        r matches Some(l) ==> l == spec_lcm(a as nat, b as nat),
        r is None ==> spec_lcm(a as nat, b as nat) > usize::MAX,
{
    if a == 0 || b == 0 {
        return Some(0);
    }
    let g = gcd(a, b);
    proof {
        lemma_gcd_divides(a as nat, b as nat);
    }
    (a / g).checked_mul(b)
}


/// How many cycles it takes a node to come back to its first cycle.
pub open spec fn element_period<T>(e: PatternTree<T>) -> nat
    decreases e, 0int,
{
    match e {
        PatternTree::Atom(_) => 1,
        PatternTree::Group(es) => seq_period(es, es.len() as int),
        PatternTree::Alternate(alts) => alt_period(alts, alts.len() as int),
    }
}

/// The period of the first `k` nodes of a sequence.
pub open spec fn seq_period<T>(s: Seq<PatternTree<T>>, k: int) -> nat
    decreases s, k,
{
    if k <= 0 || k > s.len() {
        1
    } else {
        spec_lcm(seq_period(s, k - 1), element_period(s[k - 1]))
    }
}

/// The period of alternatives: the least common multiple of their count
/// and the periods of the first `k` of them.
pub open spec fn alt_period<T>(a: Seq<Seq<PatternTree<T>>>, k: int) -> nat
    decreases a, k,
{
    if k <= 0 || k > a.len() {
        a.len()
    } else {
        spec_lcm(alt_period(a, k - 1), seq_period(a[k - 1], a[k - 1].len() as int))
    }
}

/// The period of a pattern.
pub open spec fn pattern_period<T>(s: Seq<PatternTree<T>>) -> nat {
    seq_period(s, s.len() as int)
}

/// Every list of alternatives in the node is non-empty.
pub open spec fn element_wf<T>(e: PatternTree<T>) -> bool
    decreases e, 0int,
{
    match e {
        PatternTree::Atom(_) => true,
        PatternTree::Group(es) => seq_wf(es, es.len() as int),
        PatternTree::Alternate(alts) => alts.len() > 0 && alts_wf(alts, alts.len() as int),
    }
}

pub open spec fn seq_wf<T>(s: Seq<PatternTree<T>>, k: int) -> bool
    decreases s, k,
{
    if k <= 0 || k > s.len() {
        true
    } else {
        seq_wf(s, k - 1) && element_wf(s[k - 1])
    }
}

pub open spec fn alts_wf<T>(a: Seq<Seq<PatternTree<T>>>, k: int) -> bool
    decreases a, k,
{
    if k <= 0 || k > a.len() {
        true
    } else {
        alts_wf(a, k - 1) && seq_wf(a[k - 1], a[k - 1].len() as int)
    }
}

/// Every list of alternatives in the pattern is non-empty, as the parsers
/// make them.
pub open spec fn pattern_wf<T>(s: Seq<PatternTree<T>>) -> bool {
    seq_wf(s, s.len() as int)
}

/// A well-formed node has a positive period.
pub proof fn lemma_element_period_pos<T>(e: PatternTree<T>)
    requires
        element_wf(e),
    ensures
        element_period(e) >= 1,
    decreases e, 0int,
{
    match e {
        PatternTree::Atom(_) => {},
        PatternTree::Group(es) => {
            lemma_seq_period_divides(es, es.len() as int);
        },
        PatternTree::Alternate(alts) => {
            lemma_alt_period_divides(alts, alts.len() as int);
        },
    }
}

/// The period of the first `k` nodes is positive, and a multiple of that
/// of each of them and of each shorter prefix.
pub proof fn lemma_seq_period_divides<T>(s: Seq<PatternTree<T>>, k: int)
    requires
        0 <= k <= s.len(),
        seq_wf(s, k),
    ensures
        seq_period(s, k) >= 1,
        forall|i: int| 0 <= i < k ==> divides(element_period(#[trigger] s[i]), seq_period(s, k)),
        forall|j: int| 0 <= j <= k ==> divides(#[trigger] seq_period(s, j), seq_period(s, k)),
    decreases s, k,
{
    if k == 0 {
        lemma_divides_multiple(1, 1);
    } else {
        lemma_seq_period_divides(s, k - 1);
        lemma_element_period_pos(s[k - 1]);
        let prev = seq_period(s, k - 1);
        let cur = seq_period(s, k);
        lemma_lcm(prev, element_period(s[k - 1]));
        lemma_divides_multiple(cur, 1);
        assert forall|i: int| 0 <= i < k implies divides(element_period(#[trigger] s[i]), cur) by {
            if i < k - 1 {
                lemma_divides_trans(element_period(s[i]), prev, cur);
            }
        }
        assert forall|j: int| 0 <= j <= k implies divides(#[trigger] seq_period(s, j), cur) by {
            if j < k {
                lemma_divides_trans(seq_period(s, j), prev, cur);
            }
        }
    }
}

/// The period of alternatives is a positive multiple of their count, of
/// the period of each of them and of each shorter prefix.
pub proof fn lemma_alt_period_divides<T>(a: Seq<Seq<PatternTree<T>>>, k: int)
    requires
        0 <= k <= a.len(),
        a.len() > 0,
        alts_wf(a, k),
    ensures
        alt_period(a, k) >= 1,
        divides(a.len(), alt_period(a, k)),
        forall|i: int| 0 <= i < k ==> divides(#[trigger] seq_period(a[i], a[i].len() as int), alt_period(a, k)),
        forall|j: int| 0 <= j <= k ==> divides(#[trigger] alt_period(a, j), alt_period(a, k)),
    decreases a, k,
{
    if k == 0 {
        lemma_divides_multiple(a.len(), 1);
    } else {
        lemma_alt_period_divides(a, k - 1);
        lemma_seq_period_divides(a[k - 1], a[k - 1].len() as int);
        let prev = alt_period(a, k - 1);
        let cur = alt_period(a, k);
        let p = seq_period(a[k - 1], a[k - 1].len() as int);
        lemma_lcm(prev, p);
        lemma_divides_multiple(cur, 1);
        lemma_divides_trans(a.len(), prev, cur);
        assert forall|i: int| 0 <= i < k implies divides(#[trigger] seq_period(a[i], a[i].len() as int), cur) by {
            if i < k - 1 {
                lemma_divides_trans(seq_period(a[i], a[i].len() as int), prev, cur);
            }
        }
        assert forall|j: int| 0 <= j <= k implies divides(#[trigger] alt_period(a, j), cur) by {
            if j < k {
                lemma_divides_trans(alt_period(a, j), prev, cur);
            }
        }
    }
}

proof fn lemma_seq_wf_prefix<T>(s: Seq<PatternTree<T>>, k: int, j: int)
    requires
        0 <= j <= k <= s.len(),
        seq_wf(s, k),
    ensures
        seq_wf(s, j),
        j < k ==> element_wf(s[j]),
    decreases k - j,
{
    if j < k {
        lemma_seq_wf_prefix(s, k - 1, j);
    }
}

proof fn lemma_alts_wf_prefix<T>(a: Seq<Seq<PatternTree<T>>>, k: int, j: int)
    requires
        0 <= j <= k <= a.len(),
        alts_wf(a, k),
    ensures
        alts_wf(a, j),
        j < k ==> seq_wf(a[j], a[j].len() as int),
    decreases k - j,
{
    if j < k {
        lemma_alts_wf_prefix(a, k - 1, j);
    }
}

/// A cell as a value: its path (at each level, which of how many parts it
/// takes) and its value.
pub type CellView<T> = (Seq<(usize, usize)>, T);

/// The cells of a node in a cycle, below the given path.
pub open spec fn flat_element<T>(e: PatternTree<T>, cycle: nat, path: Seq<(usize, usize)>) -> Seq<CellView<T>>
    decreases e, 0int,
{
    match e {
        PatternTree::Atom(v) => seq![(path, v)],
        PatternTree::Group(es) => flat_seq(es, cycle, path, es.len() as int),
        PatternTree::Alternate(alts) => {
            if alts.len() == 0 {
                Seq::empty()
            } else {
                let i = (cycle % alts.len()) as int;
                flat_seq(alts[i], cycle, path, alts[i].len() as int)
            }
        },
    }
}

/// The cells of the first `k` nodes in a cycle: node `i` of `n` takes part
/// `i` of `n` of the step given by `path`.
pub open spec fn flat_seq<T>(s: Seq<PatternTree<T>>, cycle: nat, path: Seq<(usize, usize)>, k: int) -> Seq<CellView<T>>
    decreases s, k,
{
    if k <= 0 || k > s.len() {
        Seq::empty()
    } else {
        flat_seq(s, cycle, path, k - 1) + flat_element(s[k - 1], cycle, path.push(((k - 1) as usize, s.len() as usize)))
    }
}

/// The cells of a pattern in a cycle, in order.
pub open spec fn flatten<T>(s: Seq<PatternTree<T>>, cycle: nat) -> Seq<CellView<T>> {
    flat_seq(s, cycle, Seq::empty(), s.len() as int)
}

proof fn lemma_mod_shift(c: nat, m: nat, n: nat)
    requires
        divides(n, m),
    ensures
        (c + m) % n == c % n,
{
    lemma_divides_quotient(n, m);
    vstd::arithmetic::div_mod::lemma_mod_multiples_vanish((m / n) as int, c as int, n as int);
}

proof fn lemma_flat_element_periodic<T>(e: PatternTree<T>, cycle: nat, m: nat, path: Seq<(usize, usize)>)
    requires
        element_wf(e),
        divides(element_period(e), m),
    ensures
        flat_element(e, cycle + m, path) == flat_element(e, cycle, path),
    decreases e, 0int,
{
    match e {
        PatternTree::Atom(_) => {},
        PatternTree::Group(es) => {
            lemma_flat_seq_periodic(es, cycle, m, path, es.len() as int);
        },
        PatternTree::Alternate(alts) => {
            let n = alts.len();
            let total = alt_period(alts, n as int);
            lemma_alt_period_divides(alts, n as int);
            lemma_divides_trans(n, total, m);
            lemma_mod_shift(cycle, m, n);
            let i = (cycle % n) as int;
            lemma_alts_wf_prefix(alts, n as int, i);
            lemma_seq_period_divides(alts[i], alts[i].len() as int);
            lemma_divides_trans(seq_period(alts[i], alts[i].len() as int), total, m);
            lemma_flat_seq_periodic(alts[i], cycle, m, path, alts[i].len() as int);
        },
    }
}

proof fn lemma_flat_seq_periodic<T>(s: Seq<PatternTree<T>>, cycle: nat, m: nat, path: Seq<(usize, usize)>, k: int)
    requires
        0 <= k <= s.len(),
        seq_wf(s, k),
        divides(seq_period(s, k), m),
    ensures
        flat_seq(s, cycle + m, path, k) == flat_seq(s, cycle, path, k),
    decreases s, k,
{
    if k > 0 {
        lemma_seq_period_divides(s, k);
        lemma_seq_wf_prefix(s, k, k - 1);
        lemma_divides_trans(seq_period(s, k - 1), seq_period(s, k), m);
        lemma_divides_trans(element_period(s[k - 1]), seq_period(s, k), m);
        lemma_flat_seq_periodic(s, cycle, m, path, k - 1);
        lemma_flat_element_periodic(s[k - 1], cycle, m, path.push(((k - 1) as usize, s.len() as usize)));
    }
}

/// The cells of a cycle depend only on the cycle modulo the pattern's
/// period: the pattern comes back to its first cycle after each period.
pub proof fn lemma_flatten_periodic<T>(s: Seq<PatternTree<T>>, cycle: nat)
    requires
        pattern_wf(s),
    ensures
        pattern_period(s) >= 1,
        flatten(s, cycle) == flatten(s, cycle % pattern_period(s)),
{
    let p = pattern_period(s);
    lemma_seq_period_divides(s, s.len() as int);
    let q = cycle / p;
    lemma_fundamental_div_mod(cycle as int, p as int);
    lemma_divides_multiple(p, q);
    assert(cycle == cycle % p + p * q);
    lemma_flat_seq_periodic(s, cycle % p, p * q, Seq::empty(), s.len() as int);
}

/// The period of a node; `None` where it does not fit in a `usize`.
fn element_period_of<T>(e: &PatternElement<T>) -> (r: Option<usize>)
    requires
        element_wf(tree_of(*e)),
    ensures
        r matches Some(p) ==> p == element_period(tree_of(*e)),
        r is None ==> element_period(tree_of(*e)) > usize::MAX,
    decreases e,
{
    match e {
        PatternElement::Atom(_) => Some(1),
        PatternElement::Group(es) => {
            assert(decreases_to!(*e => (*e)->Group_0));
            period_of(es)
        },
        PatternElement::Alternate(alts) => {
            let ghost a = alt_trees_of(alts@, alts@.len() as int);
            proof {
                lemma_alt_trees_of(alts@, alts@.len() as int);
                lemma_alt_period_divides(a, a.len() as int);
            }
            let mut acc: usize = alts.len();
            let mut k: usize = 0;
            while k < alts.len()
                invariant
                    *e == PatternElement::<T>::Alternate(*alts),
                    a == alt_trees_of(alts@, alts@.len() as int),
                    a.len() == alts@.len(),
                    forall|i: int| 0 <= i < a.len() ==> #[trigger] a[i] == trees(alts@[i]@),
                    k <= alts@.len(),
                    alts@.len() > 0,
                    alts_wf(a, a.len() as int),
                    acc == alt_period(a, k as int),
                    forall|j: int| 0 <= j <= a.len() ==> divides(#[trigger] alt_period(a, j), alt_period(a, a.len() as int)),
                decreases alts@.len() - k,
            {
                proof {
                    lemma_alts_wf_prefix(a, a.len() as int, k as int);
                    lemma_alts_wf_prefix(a, a.len() as int, k + 1);
                    lemma_alt_period_divides(a, k + 1);
                    lemma_seq_period_divides(a[k as int], a[k as int].len() as int);
                    assert(decreases_to!(*e => (*e)->Alternate_0));
                    assert(decreases_to!(*alts => alts@));
                    assert(decreases_to!(alts@ => alts@[k as int]));
                }
                let p = match period_of(&alts[k]) {
                    Some(p) => p,
                    None => {
                        proof {
                            lemma_lcm(acc as nat, seq_period(a[k as int], a[k as int].len() as int));
                            lemma_divides_le(alt_period(a, k + 1), alt_period(a, a.len() as int));
                        }
                        return None;
                    },
                };
                match lcm(acc, p) {
                    Some(l) => {
                        acc = l;
                    },
                    None => {
                        proof {
                            lemma_divides_le(alt_period(a, k + 1), alt_period(a, a.len() as int));
                        }
                        return None;
                    },
                }
                k = k + 1;
            }
            Some(acc)
        },
    }
}

/// The period of a sequence of nodes; `None` where it does not fit in a
/// `usize`.
fn period_of<T>(es: &Vec<PatternElement<T>>) -> (r: Option<usize>)
    requires
        pattern_wf(trees(es@)),
    ensures
        r matches Some(p) ==> p == pattern_period(trees(es@)),
        r is None ==> pattern_period(trees(es@)) > usize::MAX,
    decreases es,
{
    let ghost t = trees(es@);
    proof {
        lemma_trees_of(es@, es@.len() as int);
        lemma_seq_period_divides(t, t.len() as int);
    }
    let mut acc: usize = 1;
    let mut k: usize = 0;
    while k < es.len()
        invariant
            t == trees(es@),
            t.len() == es@.len(),
            forall|i: int| 0 <= i < t.len() ==> #[trigger] t[i] == tree_of(es@[i]),
            k <= es@.len(),
            pattern_wf(t),
            acc == seq_period(t, k as int),
            forall|j: int| 0 <= j <= t.len() ==> divides(#[trigger] seq_period(t, j), seq_period(t, t.len() as int)),
        decreases es@.len() - k,
    {
        proof {
            lemma_seq_wf_prefix(t, t.len() as int, k as int);
            lemma_seq_wf_prefix(t, t.len() as int, (k + 1) as int);
            lemma_seq_period_divides(t, k + 1);
            lemma_element_period_pos(t[k as int]);
            assert(decreases_to!(*es => es@));
            assert(decreases_to!(es@ => es@[k as int]));
        }
        let p = match element_period_of(&es[k]) {
            Some(p) => p,
            None => {
                proof {
                    lemma_lcm(acc as nat, element_period(t[k as int]));
                    lemma_divides_le(seq_period(t, k + 1), pattern_period(t));
                }
                return None;
            },
        };
        match lcm(acc, p) {
            Some(l) => {
                acc = l;
            },
            None => {
                proof {
                    lemma_divides_le(seq_period(t, k + 1), pattern_period(t));
                }
                return None;
            },
        }
        k = k + 1;
    }
    Some(acc)
}

/// A cell of a cycle: its path and its value.
pub struct Cell<T> {
    pub path: Vec<(usize, usize)>,
    pub value: T,
}

impl<T> View for Cell<T> {
    type V = CellView<T>;

    open spec fn view(&self) -> CellView<T> {
        (self.path@, self.value)
    }
}

pub open spec fn cells_view<T>(s: Seq<Cell<T>>) -> Seq<CellView<T>> {
    s.map_values(|c: Cell<T>| c@)
}

fn extended_path(path: &Vec<(usize, usize)>, index: usize, count: usize) -> (r: Vec<(usize, usize)>)
    ensures
        r@ == path@.push((index, count)),
{
    let mut r: Vec<(usize, usize)> = Vec::new();
    let mut i: usize = 0;
    while i < path.len()
        invariant
            i <= path@.len(),
            r@ == path@.take(i as int),
        decreases path@.len() - i,
    {
        r.push(path[i]);
        i = i + 1;
        assert(r@ =~= path@.take(i as int));
    }
    r.push((index, count));
    assert(r@ =~= path@.push((index, count)));
    r
}

/// Appends the cells of `es` in `cycle`, below `path`.
fn flatten_into<T: Copy>(es: &Vec<PatternElement<T>>, cycle: usize, path: &Vec<(usize, usize)>, cells: &mut Vec<Cell<T>>)
    ensures
        cells_view(final(cells)@) == cells_view(old(cells)@) + flat_seq(trees(es@), cycle as nat, path@, es@.len() as int),
    decreases es,
{
    let ghost t = trees(es@);
    proof {
        lemma_trees_of(es@, es@.len() as int);
    }
    let n = es.len();
    let mut i: usize = 0;
    assert(cells_view(cells@) =~= cells_view(old(cells)@) + flat_seq(t, cycle as nat, path@, 0));
    while i < n
        invariant
            i <= n,
            n == es@.len(),
            t == trees(es@),
            t.len() == n,
            forall|j: int| 0 <= j < n ==> #[trigger] t[j] == tree_of(es@[j]),
            cells_view(cells@) == cells_view(old(cells)@) + flat_seq(t, cycle as nat, path@, i as int),
        decreases n - i,
    {
        let sub = extended_path(path, i, n);
        let ghost before = cells_view(cells@);
        let ghost added = flat_element(t[i as int], cycle as nat, sub@);
        assert(decreases_to!(*es => es@));
        assert(decreases_to!(es@ => es@[i as int]));
        match &es[i] {
            PatternElement::Atom(v) => {
                let c = Cell { path: sub, value: *v };
                cells.push(c);
                assert(cells_view(cells@) =~= before.push(c@));
                assert(added =~= seq![c@]);
            },
            PatternElement::Group(g) => {
                assert(decreases_to!(es@[i as int] => es@[i as int]->Group_0));
                proof {
                    lemma_trees_of(g@, g@.len() as int);
                }
                flatten_into(g, cycle, &sub, cells);
            },
            PatternElement::Alternate(alts) => {
                proof {
                    lemma_alt_trees_of(alts@, alts@.len() as int);
                }
                if alts.len() > 0 {
                    let j = cycle % alts.len();
                    assert(decreases_to!(es@[i as int] => es@[i as int]->Alternate_0));
                    assert(decreases_to!(*alts => alts@));
                    assert(decreases_to!(alts@ => alts@[j as int]));
                    proof {
                        lemma_trees_of(alts@[j as int]@, alts@[j as int]@.len() as int);
                    }
                    flatten_into(&alts[j], cycle, &sub, cells);
                }
            },
        }
        assert(cells_view(cells@) == before + added);
        i = i + 1;
        assert(cells_view(cells@) =~= cells_view(old(cells)@) + flat_seq(t, cycle as nat, path@, i as int));
    }
}

/// The cells of a pattern in a cycle.
fn flatten_pattern<T: Copy>(es: &Vec<PatternElement<T>>, cycle: usize) -> (r: Vec<Cell<T>>)
    ensures
        cells_view(r@) == flatten(trees(es@), cycle as nat),
{
    let mut cells: Vec<Cell<T>> = Vec::new();
    let path: Vec<(usize, usize)> = Vec::new();
    proof {
        lemma_trees_of(es@, es@.len() as int);
    }
    flatten_into(es, cycle, &path, &mut cells);
    assert(cells_view(cells@) =~= flatten(trees(es@), cycle as nat));
    cells
}

/// A compiled pattern: the cells of each cycle of its period. Empty when
/// the pattern is refused; a refused pattern outputs zero.
pub struct Pattern<T> {
    variants: Vec<Vec<Cell<T>>>,
}

impl<T> View for Pattern<T> {
    type V = Seq<Seq<CellView<T>>>;

    closed spec fn view(&self) -> Seq<Seq<CellView<T>>> {
        self.variants@.map_values(|v: Vec<Cell<T>>| cells_view(v@))
    }
}

impl<T> Pattern<T> {
    /// The refused pattern.
    pub fn empty() -> (r: Self)
        ensures
            r@.len() == 0,
    {
        let r = Pattern { variants: Vec::new() };
        assert(r@ =~= Seq::<Seq<CellView<T>>>::empty());
        r
    }

    /// Whether the pattern was refused.
    pub fn is_empty(&self) -> (r: bool)
        ensures
            r == (self@.len() == 0),
    {
        self.variants.len() == 0
    }

    /// How many cycles the pattern takes to repeat.
    pub fn period(&self) -> (r: usize)
        ensures
            r == self@.len(),
    {
        self.variants.len()
    }

    /// The cells of `cycle`.
    pub fn cells(&self, cycle: usize) -> (r: &Vec<Cell<T>>)
        requires
            self@.len() > 0,
        ensures
            cells_view(r@) == self@[cycle as int % self@.len() as int],
    {
        &self.variants[cycle % self.variants.len()]
    }
}

/// What a pattern compiles to: the cells of each cycle of its period. Empty
/// where a cycle has no cell, or where the period does not fit in a `usize`.
pub open spec fn compiled<T>(s: Seq<PatternTree<T>>) -> Seq<Seq<CellView<T>>> {
    let p = pattern_period(s);
    if p > usize::MAX || exists|c: nat| c < p && (#[trigger] flatten(s, c)).len() == 0 {
        Seq::empty()
    } else {
        Seq::new(p, |c: int| flatten(s, c as nat))
    }
}

/// A compiled pattern gives, for every cycle, the cells of that cycle.
pub proof fn lemma_compiled_cycle<T>(s: Seq<PatternTree<T>>, cycle: nat)
    requires
        pattern_wf(s),
        compiled(s).len() > 0,
    ensures
        compiled(s)[(cycle % compiled(s).len()) as int] == flatten(s, cycle),
{
    lemma_flatten_periodic(s, cycle);
}

/// No group and no list of alternatives in the node is empty, nor any
/// alternative (and none is longer than a `usize` can count).
pub open spec fn element_dense<T>(e: PatternTree<T>) -> bool
    decreases e, 0int,
{
    match e {
        PatternTree::Atom(_) => true,
        PatternTree::Group(es) => 0 < es.len() <= usize::MAX && seq_dense(es, es.len() as int),
        PatternTree::Alternate(alts) => alts.len() > 0 && alts_dense(alts, alts.len() as int),
    }
}

pub open spec fn seq_dense<T>(s: Seq<PatternTree<T>>, k: int) -> bool
    decreases s, k,
{
    if k <= 0 || k > s.len() {
        true
    } else {
        seq_dense(s, k - 1) && element_dense(s[k - 1])
    }
}

pub open spec fn alts_dense<T>(a: Seq<Seq<PatternTree<T>>>, k: int) -> bool
    decreases a, k,
{
    if k <= 0 || k > a.len() {
        true
    } else {
        alts_dense(a, k - 1) && 0 < a[k - 1].len() <= usize::MAX && seq_dense(a[k - 1], a[k - 1].len() as int)
    }
}

/// How many equal parts of the cycle the step a path leads to is one of:
/// the product of the counts along the path.
pub open spec fn path_den(p: Seq<(usize, usize)>) -> int
    decreases p.len(),
{
    if p.len() == 0 {
        1
    } else {
        path_den(p.drop_last()) * p.last().1
    }
}

/// Which of those parts the step is: the cell spans
/// `[path_num / path_den, (path_num + 1) / path_den)` of the cycle.
pub open spec fn path_num(p: Seq<(usize, usize)>) -> int
    decreases p.len(),
{
    if p.len() == 0 {
        0
    } else {
        path_num(p.drop_last()) * p.last().1 + p.last().0
    }
}

/// The cells follow one another without gap or overlap from `ln / ld` to
/// `rn / rd`: the first starts at `ln / ld`, each ends where the next one
/// starts, and the last ends at `rn / rd`.
pub open spec fn tiles<T>(cells: Seq<CellView<T>>, ln: int, ld: int, rn: int, rd: int) -> bool {
    &&& cells.len() > 0
    &&& path_num(cells[0].0) * ld == ln * path_den(cells[0].0)
    &&& (path_num(cells.last().0) + 1) * rd == rn * path_den(cells.last().0)
    &&& forall|j: int|
        0 <= j < cells.len() - 1 ==> (path_num(#[trigger] cells[j].0) + 1) * path_den(cells[j + 1].0) == path_num(
            cells[j + 1].0,
        ) * path_den(cells[j].0)
}

proof fn lemma_cross_cancel(a: int, b: int, c: int, d: int, m: int, n: int)
    requires
        d > 0,
        a * d == m * b,
        c * d == m * n,
    ensures
        a * n == c * b,
{
    assert(a * n * d == c * b * d) by (nonlinear_arith)
        requires
            a * d == m * b,
            c * d == m * n,
    ;
    assert(a * n == c * b) by (nonlinear_arith)
        requires
            a * n * d == c * b * d,
            d > 0,
    ;
}

/// Tilings that meet at the same point make one tiling.
proof fn lemma_tiles_concat<T>(a: Seq<CellView<T>>, b: Seq<CellView<T>>, ln: int, ld: int, mn: int, md: int, rn: int, rd: int)
    requires
        tiles(a, ln, ld, mn, md),
        tiles(b, mn, md, rn, rd),
        md > 0,
    ensures
        tiles(a + b, ln, ld, rn, rd),
{
    let c = a + b;
    let x = a.last().0;
    let y = b[0].0;
    lemma_cross_cancel(path_num(x) + 1, path_den(x), path_num(y), md, mn, path_den(y));
    assert forall|j: int| 0 <= j < c.len() - 1 implies (path_num(#[trigger] c[j].0) + 1) * path_den(c[j + 1].0) == path_num(
        c[j + 1].0,
    ) * path_den(c[j].0) by {
        if j < a.len() - 1 {
            assert(c[j] == a[j] && c[j + 1] == a[j + 1]);
        } else if j == a.len() - 1 {
            assert(c[j] == a.last() && c[j + 1] == b[0]);
        } else {
            assert(c[j] == b[j - a.len()] && c[j + 1] == b[j - a.len() + 1]);
        }
    }
    assert(c[0] == a[0]);
    assert(c.last() == b.last());
}

/// A tiling between scaled bounds tiles between the bounds.
proof fn lemma_tiles_rescale<T>(cells: Seq<CellView<T>>, ln: int, ld: int, rn: int, rd: int, n: int)
    requires
        tiles(cells, ln * n, ld * n, rn * n, rd * n),
        n > 0,
    ensures
        tiles(cells, ln, ld, rn, rd),
{
    let f = cells[0].0;
    let l = cells.last().0;
    assert(path_num(f) * ld == ln * path_den(f)) by (nonlinear_arith)
        requires
            path_num(f) * (ld * n) == (ln * n) * path_den(f),
            n > 0,
    ;
    assert((path_num(l) + 1) * rd == rn * path_den(l)) by (nonlinear_arith)
        requires
            (path_num(l) + 1) * (rd * n) == (rn * n) * path_den(l),
            n > 0,
    ;
}

proof fn lemma_flat_element_tiles<T>(e: PatternTree<T>, cycle: nat, path: Seq<(usize, usize)>)
    requires
        element_dense(e),
        path_den(path) > 0,
    ensures
        tiles(flat_element(e, cycle, path), path_num(path), path_den(path), path_num(path) + 1, path_den(path)),
    decreases e, 0int,
{
    match e {
        PatternTree::Atom(v) => {
            let cells = flat_element(e, cycle, path);
            assert(cells[0].0 == path);
        },
        PatternTree::Group(es) => {
            let n = es.len() as int;
            lemma_flat_seq_tiles(es, cycle, path, n);
            assert((path_num(path) + 1) * n == path_num(path) * n + n) by (nonlinear_arith);
            lemma_tiles_rescale(flat_seq(es, cycle, path, n), path_num(path), path_den(path), path_num(path) + 1, path_den(path), n);
        },
        PatternTree::Alternate(alts) => {
            let i = (cycle % alts.len()) as int;
            lemma_alts_dense_at(alts, alts.len() as int, i);
            let n = alts[i].len() as int;
            lemma_flat_seq_tiles(alts[i], cycle, path, n);
            assert((path_num(path) + 1) * n == path_num(path) * n + n) by (nonlinear_arith);
            lemma_tiles_rescale(flat_seq(alts[i], cycle, path, n), path_num(path), path_den(path), path_num(path) + 1, path_den(path), n);
        },
    }
}

proof fn lemma_alts_dense_at<T>(a: Seq<Seq<PatternTree<T>>>, k: int, i: int)
    requires
        0 <= i < k <= a.len(),
        alts_dense(a, k),
    ensures
        0 < a[i].len() <= usize::MAX,
        seq_dense(a[i], a[i].len() as int),
    decreases k,
{
    if i < k - 1 {
        lemma_alts_dense_at(a, k - 1, i);
    }
}

proof fn lemma_seq_dense_at<T>(s: Seq<PatternTree<T>>, k: int, i: int)
    requires
        0 <= i < k <= s.len(),
        seq_dense(s, k),
    ensures
        element_dense(s[i]),
        seq_dense(s, k - 1),
    decreases k,
{
    if i < k - 1 {
        lemma_seq_dense_at(s, k - 1, i);
    }
}

/// The first `k` nodes of a sequence of `n` tile the first `k` of the `n`
/// parts of the step the path leads to.
proof fn lemma_flat_seq_tiles<T>(s: Seq<PatternTree<T>>, cycle: nat, path: Seq<(usize, usize)>, k: int)
    requires
        1 <= k <= s.len() <= usize::MAX,
        seq_dense(s, s.len() as int),
        path_den(path) > 0,
    ensures
        tiles(
            flat_seq(s, cycle, path, k),
            path_num(path) * s.len(),
            path_den(path) * s.len(),
            path_num(path) * s.len() + k,
            path_den(path) * s.len(),
        ),
    decreases s, k,
{
    let n = s.len() as int;
    let q = path.push(((k - 1) as usize, s.len() as usize));
    assert(q.drop_last() =~= path);
    assert(path_den(q) == path_den(path) * n);
    assert(path_num(q) == path_num(path) * n + (k - 1));
    assert(path_den(path) * n > 0) by (nonlinear_arith)
        requires
            path_den(path) > 0,
            n >= 1,
    ;
    lemma_seq_dense_at(s, s.len() as int, k - 1);
    lemma_flat_element_tiles(s[k - 1], cycle, q);
    if k == 1 {
        assert(flat_seq(s, cycle, path, 0) =~= Seq::<CellView<T>>::empty());
        assert(flat_seq(s, cycle, path, 1) =~= flat_element(s[0], cycle, q));
    } else {
        lemma_flat_seq_tiles(s, cycle, path, k - 1);
        lemma_tiles_concat(
            flat_seq(s, cycle, path, k - 1),
            flat_element(s[k - 1], cycle, q),
            path_num(path) * n,
            path_den(path) * n,
            path_num(path) * n + (k - 1),
            path_den(path) * n,
            path_num(path) * n + k,
            path_den(path) * n,
        );
    }
}

/// A pattern without empty groups or alternatives lays its cells out, in
/// every cycle, over the whole cycle: they follow one another from 0 to 1
/// without gap or overlap.
pub proof fn lemma_cells_tile_cycle<T>(s: Seq<PatternTree<T>>, cycle: nat)
    requires
        0 < s.len() <= usize::MAX,
        seq_dense(s, s.len() as int),
    ensures
        tiles(flatten(s, cycle), 0, 1, 1, 1),
{
    let n = s.len() as int;
    lemma_flat_seq_tiles(s, cycle, Seq::empty(), n);
    assert(path_num(Seq::<(usize, usize)>::empty()) == 0);
    assert(path_den(Seq::<(usize, usize)>::empty()) == 1);
    lemma_tiles_rescale(flatten(s, cycle), 0, 1, 1, 1, n);
}

/// Compiles a pattern: the cells of each cycle of its period.
fn compile_pattern<T: Copy>(es: &Vec<PatternElement<T>>) -> (r: Pattern<T>)
    requires
        pattern_wf(trees(es@)),
    ensures
        r@ == compiled(trees(es@)),
{
    let ghost t = trees(es@);
    let period = match period_of(es) {
        Some(p) => p,
        None => {
            return Pattern::empty();
        },
    };
    proof {
        lemma_seq_period_divides(t, t.len() as int);
    }
    let mut variants: Vec<Vec<Cell<T>>> = Vec::new();
    let mut c: usize = 0;
    while c < period
        invariant
            c <= period,
            period == pattern_period(t),
            t == trees(es@),
            variants@.len() == c,
            forall|k: int| 0 <= k < c ==> cells_view(#[trigger] variants@[k]@) == flatten(t, k as nat),
            forall|k: nat| k < c ==> (#[trigger] flatten(t, k)).len() > 0,
        decreases period - c,
    {
        let cells = flatten_pattern(es, c);
        if cells.len() == 0 {
            assert(flatten(t, c as nat).len() == 0);
            assert(compiled(t) =~= Seq::<Seq<CellView<T>>>::empty());
            return Pattern::empty();
        }
        variants.push(cells);
        c = c + 1;
    }
    let r = Pattern { variants };
    assert(r@ =~= compiled(t));
    r
}

/// The value of a step, if it has one.
pub open spec fn step_value(st: Step) -> Option<(usize, usize)> {
    match st {
        Step::Value(a, b) => Some((a, b)),
        _ => None,
    }
}

/// The last value among the first `k` cells.
pub open spec fn last_value(s: Seq<CellView<Step>>, k: int) -> Option<(usize, usize)>
    decreases k,
{
    if k <= 0 {
        None
    } else {
        match step_value(s[k - 1].1) {
            Some(v) => Some(v),
            None => last_value(s, k - 1),
        }
    }
}

/// Each cell takes the last value at or before it; cells before the first
/// value take the last value of the cycle. No cell at all when the cycle
/// has no value.
pub open spec fn resolve_holds(s: Seq<CellView<Step>>) -> Seq<CellView<(usize, usize)>> {
    match last_value(s, s.len() as int) {
        None => Seq::empty(),
        Some(wrap) => Seq::new(
            s.len(),
            |i: int|
                (s[i].0, match last_value(s, i + 1) {
                    Some(v) => v,
                    None => wrap,
                }),
        ),
    }
}

fn copy_path(path: &Vec<(usize, usize)>) -> (r: Vec<(usize, usize)>)
    ensures
        r@ == path@,
{
    let mut r: Vec<(usize, usize)> = Vec::new();
    let mut i: usize = 0;
    while i < path.len()
        invariant
            i <= path@.len(),
            r@ == path@.take(i as int),
        decreases path@.len() - i,
    {
        r.push(path[i]);
        i = i + 1;
        assert(r@ =~= path@.take(i as int));
    }
    assert(r@ =~= path@);
    r
}

/// Gives each hold the value before it.
fn resolve_value_holds(cells: &Vec<Cell<Step>>) -> (r: Vec<Cell<(usize, usize)>>)
    ensures
        cells_view(r@) == resolve_holds(cells_view(cells@)),
{
    let ghost s = cells_view(cells@);
    let mut k: usize = cells.len();
    let mut wrap: Option<(usize, usize)> = None;
    while k > 0
        invariant_except_break
            wrap is None,
            last_value(s, s.len() as int) == last_value(s, k as int),
        invariant
            k <= cells@.len(),
            s == cells_view(cells@),
        ensures
            wrap is Some || k == 0,
            last_value(s, s.len() as int) == (match wrap {
                Some(v) => Some(v),
                None => last_value(s, k as int),
            }),
        decreases k,
    {
        k = k - 1;
        assert(s[k as int] == cells@[k as int]@);
        match cells[k].value {
            Step::Value(a, b) => {
                assert(last_value(s, k + 1) == Some((a, b)));
                wrap = Some((a, b));
                break;
            },
            _ => {},
        }
    }
    let held0 = match wrap {
        Some(v) => v,
        None => {
            assert(resolve_holds(s) =~= Seq::<CellView<(usize, usize)>>::empty());
            return Vec::new();
        },
    };
    let mut held = held0;
    let mut out: Vec<Cell<(usize, usize)>> = Vec::new();
    let mut i: usize = 0;
    while i < cells.len()
        invariant
            i <= cells@.len(),
            s == cells_view(cells@),
            last_value(s, s.len() as int) == Some(held0),
            held == (match last_value(s, i as int) {
                Some(v) => v,
                None => held0,
            }),
            cells_view(out@) == resolve_holds(s).take(i as int),
        decreases cells@.len() - i,
    {
        assert(s[i as int] == cells@[i as int]@);
        match cells[i].value {
            Step::Value(a, b) => {
                held = (a, b);
            },
            _ => {},
        }
        assert(held == (match last_value(s, i + 1) {
            Some(v) => v,
            None => held0,
        }));
        assert(resolve_holds(s)[i as int] == (s[i as int].0, held));
        let c = Cell { path: copy_path(&cells[i].path), value: held };
        assert(c@ == resolve_holds(s)[i as int]);
        assert(resolve_holds(s).take(i + 1) =~= resolve_holds(s).take(i as int).push(c@));
        assert(cells_view(out@.push(c)) =~= cells_view(out@).push(c@));
        out.push(c);
        i = i + 1;
        assert(cells_view(out@) =~= resolve_holds(s).take(i as int));
    }
    assert(resolve_holds(s).take(i as int) =~= resolve_holds(s));
    out
}

/// Whitespace that the grammar skips around items.
pub open spec fn is_space(c: char) -> bool {
    c == ' ' || c == '\t' || c == '\r' || c == '\n'
}

/// Characters that end a value token.
pub open spec fn ends_token(c: char) -> bool {
    is_space(c) || c == '\x0C' || c == ',' || c == '[' || c == ']' || c == '<' || c == '>' || c == ';'
        || c == '*' || c == '('
}

/// The first position at or after `p` that holds no space.
pub open spec fn skip_spaces(s: Seq<char>, p: int) -> int
    decreases s.len() - p,
{
    if 0 <= p < s.len() && is_space(s[p]) {
        skip_spaces(s, p + 1)
    } else {
        p
    }
}

/// The first position at or after `p` that holds no digit.
pub open spec fn digits_end(s: Seq<char>, p: int) -> int
    decreases s.len() - p,
{
    if 0 <= p < s.len() && is_digit(s[p]) {
        digits_end(s, p + 1)
    } else {
        p
    }
}

/// The first position at or after `p` that ends a value token.
pub open spec fn token_end(s: Seq<char>, p: int) -> int
    decreases s.len() - p,
{
    if 0 <= p < s.len() && !ends_token(s[p]) {
        token_end(s, p + 1)
    } else {
        p
    }
}

pub proof fn lemma_scans(s: Seq<char>, p: int)
    requires
        0 <= p <= s.len(),
    ensures
        p <= skip_spaces(s, p) <= s.len(),
        p <= digits_end(s, p) <= s.len(),
        p <= token_end(s, p) <= s.len(),
        forall|i: int| p <= i < digits_end(s, p) ==> is_digit(#[trigger] s[i]),
        forall|i: int| p <= i < token_end(s, p) ==> !ends_token(#[trigger] s[i]),
        forall|i: int| p <= i < skip_spaces(s, p) ==> is_space(#[trigger] s[i]),
    decreases s.len() - p,
{
    if p < s.len() {
        lemma_scans(s, p + 1);
    }
}

/// A `usize` written in decimal at `p`, and where it ends.
pub open spec fn p_unsigned(s: Seq<char>, p: int) -> Option<(usize, int)> {
    let e = digits_end(s, p);
    if e <= p {
        None
    } else {
        let v = decimal_value(s.subrange(p, e));
        if v > usize::MAX {
            None
        } else {
            Some((v as usize, e))
        }
    }
}

/// Euclidean rhythm arguments `(pulses, steps)` at `p`, spaces allowed
/// around each number, and where they end.
pub open spec fn p_euclid(s: Seq<char>, p: int) -> Option<(usize, usize, int)> {
    if 0 <= p < s.len() && s[p] == '(' {
        match p_unsigned(s, skip_spaces(s, p + 1)) {
            None => None,
            Some((a, q)) => {
                let q1 = skip_spaces(s, q);
                if 0 <= q1 < s.len() && s[q1] == ',' {
                    match p_unsigned(s, skip_spaces(s, q1 + 1)) {
                        None => None,
                        Some((b, r)) => {
                            let r1 = skip_spaces(s, r);
                            if 0 <= r1 < s.len() && s[r1] == ')' {
                                Some((a, b, r1 + 1))
                            } else {
                                None
                            }
                        },
                    }
                } else {
                    None
                }
            },
        }
    } else {
        None
    }
}

/// The repeat count `*n` at `p` (1 when there is none), and where it ends;
/// `None` for a count of 0.
pub open spec fn p_repeat(s: Seq<char>, p: int) -> Option<(usize, int)> {
    if 0 <= p < s.len() && s[p] == '*' {
        match p_unsigned(s, p + 1) {
            Some((n, q)) => if n == 0 {
                None
            } else {
                Some((n, q))
            },
            None => Some((1, p)),
        }
    } else {
        Some((1, p))
    }
}

/// Whether step `k` of a Euclidean rhythm of `pulses` in `steps` is on.
pub open spec fn euclid_on(k: int, pulses: int, steps: int) -> bool {
    (k * pulses) % steps < pulses
}

/// The steps of a Euclidean rhythm: `pulses` onsets spread over `steps`.
pub open spec fn euclid_seq<T>(pulses: usize, steps: usize, on: T, off: T) -> Seq<PatternTree<T>> {
    Seq::new(
        steps as nat,
        |k: int|
            PatternTree::Atom(
                if euclid_on(k, pulses as int, steps as int) {
                    on
                } else {
                    off
                },
            ),
    )
}

/// A gate rhythm whose arguments are out of range is an empty group.
pub open spec fn gate_euclid(pulses: usize, steps: usize) -> Seq<PatternTree<Step>> {
    if pulses <= steps && steps > 0 {
        euclid_seq(pulses, steps, Step::On, Step::Off)
    } else {
        Seq::empty()
    }
}

/// A gate step at `p`: `x` or `X` (on), `.` (off), a rhythm `x(p,s)` or
/// `e(p,s)`.
pub open spec fn p_gate_atom(s: Seq<char>, p: int) -> Option<(PatternTree<Step>, int)> {
    if !(0 <= p < s.len()) {
        None
    } else if s[p] == 'x' || s[p] == 'X' {
        match p_euclid(s, p + 1) {
            Some((a, b, q)) => Some((PatternTree::Group(gate_euclid(a, b)), q)),
            None => Some((PatternTree::Atom(Step::On), p + 1)),
        }
    } else if s[p] == '.' {
        Some((PatternTree::Atom(Step::Off), p + 1))
    } else if s[p] == 'e' {
        match p_euclid(s, p + 1) {
            Some((a, b, q)) => Some((PatternTree::Group(gate_euclid(a, b)), q)),
            None => None,
        }
    } else {
        None
    }
}

/// A value step at `p`: `_` (hold) or a token, optionally a rhythm of it
/// `v(p,s)`, whose off steps hold.
pub open spec fn p_value_atom(s: Seq<char>, p: int) -> Option<(PatternTree<Step>, int)> {
    if !(0 <= p < s.len()) {
        None
    } else if s[p] == '_' {
        Some((PatternTree::Atom(Step::Hold), p + 1))
    } else {
        let e = token_end(s, p);
        if e <= p {
            None
        } else {
            let v = Step::Value(p as usize, e as usize);
            match p_euclid(s, e) {
                Some((a, b, q)) => if a <= b && b > 0 {
                    Some((PatternTree::Group(euclid_seq(a, b, v, Step::Hold)), q))
                } else {
                    None
                },
                None => Some((PatternTree::Atom(v), e)),
            }
        }
    }
}

/// A node at `p`: a group `[..]`, alternatives `<..;..>` or a step.
pub open spec fn p_node(g: bool, s: Seq<char>, p: int) -> Option<(PatternTree<Step>, int)>
    decreases s.len() - p, 2int,
{
    if !(0 <= p < s.len()) {
        None
    } else if s[p] == '[' {
        match p_sequence(g, s, p + 1) {
            Some((es, q)) => if 0 <= q < s.len() && s[q] == ']' {
                Some((PatternTree::Group(es), q + 1))
            } else {
                None
            },
            None => None,
        }
    } else if s[p] == '<' {
        match p_alternatives(g, s, p + 1) {
            Some((alts, q)) => if 0 <= q < s.len() && s[q] == '>' {
                Some((PatternTree::Alternate(alts), q + 1))
            } else {
                None
            },
            None => None,
        }
    } else if g {
        p_gate_atom(s, p)
    } else {
        p_value_atom(s, p)
    }
}

/// An item at `p`: a node, spaces around it, then its repeat count; the
/// node as many times as the count says.
pub open spec fn p_item(g: bool, s: Seq<char>, p: int) -> Option<(Seq<PatternTree<Step>>, int)>
    decreases s.len() - p, 3int,
{
    let p0 = skip_spaces(s, p);
    if p0 < p || p0 > s.len() {
        None
    } else {
        match p_node(g, s, p0) {
            None => None,
            Some((t, q)) => match p_repeat(s, skip_spaces(s, q)) {
                None => None,
                Some((n, r)) => Some((Seq::new(n as nat, |i: int| t), r)),
            },
        }
    }
}

/// Items and commas of a gate sequence from `p`, as far as they go.
pub open spec fn p_gate_seq(s: Seq<char>, p: int) -> (Seq<PatternTree<Step>>, int)
    decreases s.len() - p, 4int,
{
    match p_item(true, s, p) {
        Some((es, q)) => if q <= p || q > s.len() {
            (Seq::empty(), p)
        } else {
            let (rest, r) = p_gate_seq(s, q);
            (es + rest, r)
        },
        None => {
            let p0 = skip_spaces(s, p);
            let q = skip_spaces(s, p0 + 1);
            if 0 <= p0 < s.len() && s[p0] == ',' && p < q <= s.len() {
                p_gate_seq(s, q)
            } else {
                (Seq::empty(), p)
            }
        },
    }
}

/// The items of a value sequence after its first, each after a comma.
pub open spec fn p_value_rest(s: Seq<char>, q: int) -> (Seq<PatternTree<Step>>, int)
    decreases s.len() - q, 4int,
{
    if 0 <= q < s.len() && s[q] == ',' {
        match p_item(false, s, q + 1) {
            Some((es, r)) => if r <= q || r > s.len() {
                (Seq::empty(), q)
            } else {
                let (rest, t) = p_value_rest(s, r);
                (es + rest, t)
            },
            None => (Seq::empty(), q),
        }
    } else {
        (Seq::empty(), q)
    }
}

/// A sequence at `p`: for gates, items and commas in any number; for
/// values, at least one item, the items separated by commas.
pub open spec fn p_sequence(g: bool, s: Seq<char>, p: int) -> Option<(Seq<PatternTree<Step>>, int)>
    decreases s.len() - p, 5int,
{
    if g {
        Some(p_gate_seq(s, p))
    } else {
        match p_item(false, s, p) {
            None => None,
            Some((es, q)) => if q <= p || q > s.len() {
                None
            } else {
                let (rest, r) = p_value_rest(s, q);
                Some((es + rest, r))
            },
        }
    }
}

/// The alternatives after the first, each after a `;`.
pub open spec fn p_alt_rest(g: bool, s: Seq<char>, q: int) -> (Seq<Seq<PatternTree<Step>>>, int)
    decreases s.len() - q, 6int,
{
    if 0 <= q < s.len() && s[q] == ';' {
        match p_sequence(g, s, q + 1) {
            Some((es, r)) => if r <= q || r > s.len() {
                (Seq::empty(), q)
            } else {
                let (rest, t) = p_alt_rest(g, s, r);
                (seq![es] + rest, t)
            },
            None => (Seq::empty(), q),
        }
    } else {
        (Seq::empty(), q)
    }
}

/// Alternatives at `p`: sequences separated by `;`, at least one.
pub open spec fn p_alternatives(g: bool, s: Seq<char>, p: int) -> Option<(Seq<Seq<PatternTree<Step>>>, int)>
    decreases s.len() - p, 7int,
{
    match p_sequence(g, s, p) {
        None => None,
        Some((first, q)) => if q < p || q > s.len() {
            None
        } else {
            let (rest, r) = p_alt_rest(g, s, q);
            Some((seq![first] + rest, r))
        },
    }
}

/// A gate pattern: a gate sequence with at least one item, then only
/// spaces.
pub open spec fn parse_gate_text(s: Seq<char>) -> Option<Seq<PatternTree<Step>>> {
    let (es, q) = p_gate_seq(s, 0);
    if skip_spaces(s, q) == s.len() && es.len() > 0 {
        Some(es)
    } else {
        None
    }
}

/// A value pattern: a value sequence, then only spaces.
pub open spec fn parse_value_text(s: Seq<char>) -> Option<Seq<PatternTree<Step>>> {
    match p_sequence(false, s, 0) {
        Some((es, q)) => if skip_spaces(s, q) == s.len() {
            Some(es)
        } else {
            None
        },
        None => None,
    }
}

/// A parse result with its end as an `int`.
pub open spec fn at<A>(r: Option<(A, usize)>) -> Option<(A, int)> {
    match r {
        Some((a, q)) => Some((a, q as int)),
        None => None,
    }
}

fn is_space_char(c: char) -> (r: bool)
    ensures
        r == is_space(c),
{
    c == ' ' || c == '\t' || c == '\r' || c == '\n'
}

fn ends_token_char(c: char) -> (r: bool)
    ensures
        r == ends_token(c),
{
    is_space_char(c) || c == '\x0C' || c == ',' || c == '[' || c == ']' || c == '<' || c == '>' || c == ';'
        || c == '*' || c == '('
}

fn skip_spaces_at(s: &[char], p: usize) -> (r: usize)
    requires
        p <= s@.len(),
    ensures
        r as int == skip_spaces(s@, p as int),
        p <= r <= s@.len(),
{
    proof {
        lemma_scans(s@, p as int);
    }
    let mut i = p;
    while i < s.len() && is_space_char(s[i])
        invariant
            p <= i <= s@.len(),
            skip_spaces(s@, i as int) == skip_spaces(s@, p as int),
        decreases s@.len() - i,
    {
        i = i + 1;
    }
    i
}

fn digits_end_at(s: &[char], p: usize) -> (r: usize)
    requires
        p <= s@.len(),
    ensures
        r as int == digits_end(s@, p as int),
        p <= r <= s@.len(),
{
    proof {
        lemma_scans(s@, p as int);
    }
    let mut i = p;
    while i < s.len() && '0' <= s[i] && s[i] <= '9'
        invariant
            p <= i <= s@.len(),
            digits_end(s@, i as int) == digits_end(s@, p as int),
        decreases s@.len() - i,
    {
        i = i + 1;
    }
    i
}

fn token_end_at(s: &[char], p: usize) -> (r: usize)
    requires
        p <= s@.len(),
    ensures
        r as int == token_end(s@, p as int),
        p <= r <= s@.len(),
{
    proof {
        lemma_scans(s@, p as int);
    }
    let mut i = p;
    while i < s.len() && !ends_token_char(s[i])
        invariant
            p <= i <= s@.len(),
            token_end(s@, i as int) == token_end(s@, p as int),
        decreases s@.len() - i,
    {
        i = i + 1;
    }
    i
}

/// A `usize` written in decimal at `p`.
fn unsigned_at(s: &[char], p: usize) -> (r: Option<(usize, usize)>)
    requires
        p <= s@.len(),
    ensures
        at(r) == p_unsigned(s@, p as int),
        r matches Some((_, e)) ==> p < e <= s@.len(),
{
    let e = digits_end_at(s, p);
    if e <= p {
        return None;
    }
    proof {
        lemma_scans(s@, p as int);
    }
    let ghost whole = s@.subrange(p as int, e as int);
    let mut acc: usize = 0;
    let mut i = p;
    assert(s@.subrange(p as int, p as int) =~= Seq::<char>::empty());
    while i < e
        invariant
            p <= i <= e,
            e as int == digits_end(s@, p as int),
            e <= s@.len(),
            whole == s@.subrange(p as int, e as int),
            forall|j: int| p <= j < e ==> is_digit(#[trigger] s@[j]),
            acc as int == decimal_value(s@.subrange(p as int, i as int)),
        decreases e - i,
    {
        let c = s[i];
        let d = (c as u32 - '0' as u32) as usize;
        assert(s@.subrange(p as int, i + 1).drop_last() =~= s@.subrange(p as int, i as int));
        assert(s@.subrange(p as int, i + 1).last() == c);
        let next = match acc.checked_mul(10) {
            Some(m) => m.checked_add(d),
            None => None,
        };
        match next {
            Some(v) => {
                acc = v;
            },
            None => {
                proof {
                    assert forall|j: int| 0 <= j < whole.len() implies is_digit(#[trigger] whole[j]) by {
                        assert(whole[j] == s@[p + j]);
                    }
                    assert(whole.take(i + 1 - p) =~= s@.subrange(p as int, i + 1));
                    lemma_decimal_bound(s@.subrange(p as int, i as int));
                    lemma_decimal_prefix(whole, (i + 1 - p) as nat);
                }
                return None;
            },
        }
        i = i + 1;
    }
    assert(s@.subrange(p as int, i as int) =~= whole);
    Some((acc, e))
}

/// Euclidean rhythm arguments `(pulses, steps)` at `p`.
fn euclid_at(s: &[char], p: usize) -> (r: Option<(usize, usize, usize)>)
    requires
        p <= s@.len(),
    ensures
        r matches Some((a, b, q)) ==> p_euclid(s@, p as int) == Some((a, b, q as int)) && p < q <= s@.len(),
        r is None ==> p_euclid(s@, p as int) is None,
{
    if !(p < s.len() && s[p] == '(') {
        return None;
    }
    let p1 = skip_spaces_at(s, p + 1);
    let (a, q) = match unsigned_at(s, p1) {
        Some(x) => x,
        None => {
            return None;
        },
    };
    let q1 = skip_spaces_at(s, q);
    if !(q1 < s.len() && s[q1] == ',') {
        return None;
    }
    let q2 = skip_spaces_at(s, q1 + 1);
    let (b, r) = match unsigned_at(s, q2) {
        Some(x) => x,
        None => {
            return None;
        },
    };
    let r1 = skip_spaces_at(s, r);
    if !(r1 < s.len() && s[r1] == ')') {
        return None;
    }
    Some((a, b, r1 + 1))
}

/// The repeat count at `p`.
fn repeat_at(s: &[char], p: usize) -> (r: Option<(usize, usize)>)
    requires
        p <= s@.len(),
    ensures
        at(r) == p_repeat(s@, p as int),
        r matches Some((_, q)) ==> p <= q <= s@.len(),
{
    if p < s.len() && s[p] == '*' {
        match unsigned_at(s, p + 1) {
            Some((n, q)) => if n == 0 {
                None
            } else {
                Some((n, q))
            },
            None => Some((1, p)),
        }
    } else {
        Some((1, p))
    }
}

/// The steps of a Euclidean rhythm of `pulses` onsets in `steps` steps;
/// `None` when there are more pulses than steps, or no step.
fn euclidean_values<T: Copy>(pulses: usize, steps: usize, on: T, off: T) -> (r: Option<Vec<PatternElement<T>>>)
    ensures
        r is None <==> (pulses > steps || steps == 0),
        r matches Some(v) ==> trees(v@) == euclid_seq(pulses, steps, on, off),
{
    if pulses > steps || steps == 0 {
        return None;
    }
    let mut v: Vec<PatternElement<T>> = Vec::new();
    let mut k: usize = 0;
    while k < steps
        invariant
            k <= steps,
            0 < steps,
            pulses <= steps,
            v@.len() == k,
            forall|i: int| 0 <= i < k ==> #[trigger] tree_of(v@[i]) == euclid_seq(pulses, steps, on, off)[i],
        decreases steps - k,
    {
        assert((k as int) * (pulses as int) <= u128::MAX) by (nonlinear_arith)
            requires
                k <= u64::MAX,
                pulses <= u64::MAX,
        ;
        let prod: u128 = k as u128 * pulses as u128;
        assert(prod == k * pulses);
        let on_step = prod % (steps as u128) < pulses as u128;
        assert(on_step == euclid_on(k as int, pulses as int, steps as int));
        v.push(PatternElement::Atom(if on_step { on } else { off }));
        k = k + 1;
    }
    proof {
        lemma_trees_of(v@, v@.len() as int);
        assert(trees(v@) =~= euclid_seq(pulses, steps, on, off));
    }
    Some(v)
}

/// A copy of a node.
fn clone_element<T: Copy>(e: &PatternElement<T>) -> (r: PatternElement<T>)
    ensures
        tree_of(r) == tree_of(*e),
    decreases e,
{
    match e {
        PatternElement::Atom(v) => PatternElement::Atom(*v),
        PatternElement::Group(es) => {
            assert(decreases_to!(*e => (*e)->Group_0));
            PatternElement::Group(clone_elements(es))
        },
        PatternElement::Alternate(alts) => {
            let mut out: Vec<Vec<PatternElement<T>>> = Vec::new();
            let mut k: usize = 0;
            while k < alts.len()
                invariant
                    *e == PatternElement::<T>::Alternate(*alts),
                    k <= alts@.len(),
                    out@.len() == k,
                    forall|i: int| 0 <= i < k ==> #[trigger] trees(out@[i]@) == trees(alts@[i]@),
                decreases alts@.len() - k,
            {
                assert(decreases_to!(*e => (*e)->Alternate_0));
                assert(decreases_to!(*alts => alts@));
                assert(decreases_to!(alts@ => alts@[k as int]));
                out.push(clone_elements(&alts[k]));
                k = k + 1;
            }
            proof {
                lemma_alt_trees_of(out@, out@.len() as int);
                lemma_alt_trees_of(alts@, alts@.len() as int);
                assert(alt_trees_of(out@, out@.len() as int) =~= alt_trees_of(alts@, alts@.len() as int));
            }
            PatternElement::Alternate(out)
        },
    }
}

/// A copy of a sequence of nodes.
fn clone_elements<T: Copy>(es: &Vec<PatternElement<T>>) -> (r: Vec<PatternElement<T>>)
    ensures
        trees(r@) == trees(es@),
    decreases es,
{
    let mut out: Vec<PatternElement<T>> = Vec::new();
    let mut k: usize = 0;
    while k < es.len()
        invariant
            k <= es@.len(),
            out@.len() == k,
            forall|i: int| 0 <= i < k ==> #[trigger] tree_of(out@[i]) == tree_of(es@[i]),
        decreases es@.len() - k,
    {
        assert(decreases_to!(*es => es@));
        assert(decreases_to!(es@ => es@[k as int]));
        out.push(clone_element(&es[k]));
        k = k + 1;
    }
    proof {
        lemma_trees_of(out@, out@.len() as int);
        lemma_trees_of(es@, es@.len() as int);
        assert(trees(out@) =~= trees(es@));
    }
    out
}

/// The values of two sequences put together.
proof fn lemma_trees_concat<T>(a: Seq<PatternElement<T>>, b: Seq<PatternElement<T>>)
    ensures
        trees(a + b) == trees(a) + trees(b),
{
    lemma_trees_of(a, a.len() as int);
    lemma_trees_of(b, b.len() as int);
    lemma_trees_of(a + b, (a + b).len() as int);
    assert(trees(a + b) =~= trees(a) + trees(b));
}

/// Well-formedness of a prefix, element by element.
pub proof fn lemma_seq_wf_iff<T>(s: Seq<PatternTree<T>>, k: int)
    requires
        0 <= k <= s.len(),
    ensures
        seq_wf(s, k) <==> forall|i: int| 0 <= i < k ==> element_wf(#[trigger] s[i]),
    decreases k,
{
    if k > 0 {
        lemma_seq_wf_iff(s, k - 1);
    }
}

/// Well-formedness of alternatives, one by one.
pub proof fn lemma_alts_wf_iff<T>(a: Seq<Seq<PatternTree<T>>>, k: int)
    requires
        0 <= k <= a.len(),
    ensures
        alts_wf(a, k) <==> forall|i: int| 0 <= i < k ==> pattern_wf(#[trigger] a[i]),
    decreases k,
{
    if k > 0 {
        lemma_alts_wf_iff(a, k - 1);
    }
}

/// The values of all alternatives.
pub open spec fn alts_trees<T>(a: Seq<Vec<PatternElement<T>>>) -> Seq<Seq<PatternTree<T>>> {
    alt_trees_of(a, a.len() as int)
}

pub open spec fn at_tree(r: Option<(PatternElement<Step>, usize)>) -> Option<(PatternTree<Step>, int)> {
    match r {
        Some((e, q)) => Some((tree_of(e), q as int)),
        None => None,
    }
}

pub open spec fn at_trees(r: Option<(Vec<PatternElement<Step>>, usize)>) -> Option<(Seq<PatternTree<Step>>, int)> {
    match r {
        Some((v, q)) => Some((trees(v@), q as int)),
        None => None,
    }
}

pub open spec fn at_alts(r: Option<(Vec<Vec<PatternElement<Step>>>, usize)>) -> Option<(Seq<Seq<PatternTree<Step>>>, int)> {
    match r {
        Some((v, q)) => Some((alts_trees(v@), q as int)),
        None => None,
    }
}

/// The rhythm group of a gate: the group of the rhythm's steps, empty when
/// its arguments are out of range.
fn gate_rhythm(pulses: usize, steps: usize) -> (r: PatternElement<Step>)
    ensures
        tree_of(r) == PatternTree::Group(gate_euclid(pulses, steps)),
        element_wf(tree_of(r)),
{
    let v = match euclidean_values(pulses, steps, Step::On, Step::Off) {
        Some(v) => v,
        None => Vec::new(),
    };
    proof {
        lemma_trees_of(v@, v@.len() as int);
        assert(trees(v@) =~= gate_euclid(pulses, steps));
        lemma_seq_wf_iff(trees(v@), v@.len() as int);
    }
    PatternElement::Group(v)
}

fn gate_atom_at(s: &[char], p: usize) -> (r: Option<(PatternElement<Step>, usize)>)
    requires
        p <= s@.len(),
    ensures
        at_tree(r) == p_gate_atom(s@, p as int),
        r matches Some((e, q)) ==> p < q <= s@.len() && element_wf(tree_of(e)),
{
    if p >= s.len() {
        return None;
    }
    let c = s[p];
    if c == 'x' || c == 'X' {
        match euclid_at(s, p + 1) {
            Some((a, b, q)) => Some((gate_rhythm(a, b), q)),
            None => Some((PatternElement::Atom(Step::On), p + 1)),
        }
    } else if c == '.' {
        Some((PatternElement::Atom(Step::Off), p + 1))
    } else if c == 'e' {
        match euclid_at(s, p + 1) {
            Some((a, b, q)) => Some((gate_rhythm(a, b), q)),
            None => None,
        }
    } else {
        None
    }
}

fn value_atom_at(s: &[char], p: usize) -> (r: Option<(PatternElement<Step>, usize)>)
    requires
        p <= s@.len(),
    ensures
        at_tree(r) == p_value_atom(s@, p as int),
        r matches Some((e, q)) ==> p < q <= s@.len() && element_wf(tree_of(e)),
{
    if p >= s.len() {
        return None;
    }
    if s[p] == '_' {
        return Some((PatternElement::Atom(Step::Hold), p + 1));
    }
    let e = token_end_at(s, p);
    if e <= p {
        return None;
    }
    let v = Step::Value(p, e);
    match euclid_at(s, e) {
        Some((a, b, q)) => match euclidean_values(a, b, v, Step::Hold) {
            Some(steps) => {
                proof {
                    lemma_trees_of(steps@, steps@.len() as int);
                    lemma_seq_wf_iff(trees(steps@), steps@.len() as int);
                }
                Some((PatternElement::Group(steps), q))
            },
            None => None,
        },
        None => Some((PatternElement::Atom(v), e)),
    }
}

fn node_at(g: bool, s: &[char], p: usize) -> (r: Option<(PatternElement<Step>, usize)>)
    requires
        p <= s@.len(),
    ensures
        at_tree(r) == p_node(g, s@, p as int),
        r matches Some((e, q)) ==> p < q <= s@.len() && element_wf(tree_of(e)),
    decreases s@.len() - p, 2int,
{
    if p >= s.len() {
        return None;
    }
    if s[p] == '[' {
        match sequence_at(g, s, p + 1) {
            Some((es, q)) => if q < s.len() && s[q] == ']' {
                proof {
                    lemma_trees_of(es@, es@.len() as int);
                }
                Some((PatternElement::Group(es), q + 1))
            } else {
                None
            },
            None => None,
        }
    } else if s[p] == '<' {
        match alternatives_at(g, s, p + 1) {
            Some((alts, q)) => if q < s.len() && s[q] == '>' {
                proof {
                    lemma_alt_trees_of(alts@, alts@.len() as int);
                }
                Some((PatternElement::Alternate(alts), q + 1))
            } else {
                None
            },
            None => None,
        }
    } else if g {
        gate_atom_at(s, p)
    } else {
        value_atom_at(s, p)
    }
}

fn item_at(g: bool, s: &[char], p: usize) -> (r: Option<(Vec<PatternElement<Step>>, usize)>)
    requires
        p <= s@.len(),
    ensures
        at_trees(r) == p_item(g, s@, p as int),
        r matches Some((v, q)) ==> p < q <= s@.len() && pattern_wf(trees(v@)),
    decreases s@.len() - p, 3int,
{
    let p0 = skip_spaces_at(s, p);
    let (t, q) = match node_at(g, s, p0) {
        Some(x) => x,
        None => {
            return None;
        },
    };
    let q1 = skip_spaces_at(s, q);
    let (n, r) = match repeat_at(s, q1) {
        Some(x) => x,
        None => {
            return None;
        },
    };
    let mut v: Vec<PatternElement<Step>> = Vec::new();
    let mut k: usize = 0;
    while k < n
        invariant
            k <= n,
            v@.len() == k,
            forall|i: int| 0 <= i < k ==> #[trigger] tree_of(v@[i]) == tree_of(t),
        decreases n - k,
    {
        v.push(clone_element(&t));
        k = k + 1;
    }
    proof {
        lemma_trees_of(v@, v@.len() as int);
        let tv = tree_of(t);
        assert(trees(v@) =~= Seq::new(n as nat, |i: int| tv));
        lemma_seq_wf_iff(trees(v@), v@.len() as int);
    }
    Some((v, r))
}

fn gate_seq_at(s: &[char], p: usize) -> (r: (Vec<PatternElement<Step>>, usize))
    requires
        p <= s@.len(),
    ensures
        (trees(r.0@), r.1 as int) == p_gate_seq(s@, p as int),
        p <= r.1 <= s@.len(),
        pattern_wf(trees(r.0@)),
    decreases s@.len() - p, 4int,
{
    let mut acc: Vec<PatternElement<Step>> = Vec::new();
    let mut i = p;
    proof {
        lemma_trees_of(acc@, 0);
        assert(trees(acc@) + p_gate_seq(s@, i as int).0 =~= p_gate_seq(s@, i as int).0);
        lemma_seq_wf_iff(trees(acc@), 0);
    }
    loop
        invariant
            p <= i <= s@.len(),
            p_gate_seq(s@, p as int) == (trees(acc@) + p_gate_seq(s@, i as int).0, p_gate_seq(s@, i as int).1),
            pattern_wf(trees(acc@)),
        decreases s@.len() - i,
    {
        match item_at(true, s, i) {
            Some((mut es, q)) => {
                proof {
                    lemma_trees_concat(acc@, es@);
                    wf_concat(trees(acc@), trees(es@));
                    assert(trees(acc@) + (trees(es@) + p_gate_seq(s@, q as int).0) =~= (trees(acc@) + trees(es@)) + p_gate_seq(s@, q as int).0);
                }
                acc.append(&mut es);
                i = q;
            },
            None => {
                let p0 = skip_spaces_at(s, i);
                if p0 < s.len() && s[p0] == ',' {
                    i = skip_spaces_at(s, p0 + 1);
                } else {
                    proof {
                        assert(trees(acc@) + Seq::<PatternTree<Step>>::empty() =~= trees(acc@));
                    }
                    return (acc, i);
                }
            },
        }
    }
}

/// Well-formed sequences put together stay well formed.
proof fn wf_concat<T>(a: Seq<PatternTree<T>>, b: Seq<PatternTree<T>>)
    requires
        pattern_wf(a),
        pattern_wf(b),
    ensures
        pattern_wf(a + b),
{
    lemma_seq_wf_iff(a, a.len() as int);
    lemma_seq_wf_iff(b, b.len() as int);
    lemma_seq_wf_iff(a + b, (a + b).len() as int);
    assert forall|i: int| 0 <= i < (a + b).len() implies element_wf(#[trigger] (a + b)[i]) by {
        if i < a.len() {
            assert((a + b)[i] == a[i]);
        } else {
            assert((a + b)[i] == b[i - a.len()]);
        }
    }
}

fn value_rest_at(s: &[char], q: usize) -> (r: (Vec<PatternElement<Step>>, usize))
    requires
        q <= s@.len(),
    ensures
        (trees(r.0@), r.1 as int) == p_value_rest(s@, q as int),
        q <= r.1 <= s@.len(),
        pattern_wf(trees(r.0@)),
    decreases s@.len() - q, 4int,
{
    let mut acc: Vec<PatternElement<Step>> = Vec::new();
    let mut i = q;
    proof {
        lemma_trees_of(acc@, 0);
        assert(trees(acc@) + p_value_rest(s@, i as int).0 =~= p_value_rest(s@, i as int).0);
        lemma_seq_wf_iff(trees(acc@), 0);
    }
    while i < s.len() && s[i] == ','
        invariant
            q <= i <= s@.len(),
            p_value_rest(s@, q as int) == (trees(acc@) + p_value_rest(s@, i as int).0, p_value_rest(s@, i as int).1),
            pattern_wf(trees(acc@)),
        decreases s@.len() - i,
    {
        match item_at(false, s, i + 1) {
            Some((mut es, r)) => {
                proof {
                    lemma_trees_concat(acc@, es@);
                    wf_concat(trees(acc@), trees(es@));
                    assert(trees(acc@) + (trees(es@) + p_value_rest(s@, r as int).0) =~= (trees(acc@) + trees(es@)) + p_value_rest(s@, r as int).0);
                }
                acc.append(&mut es);
                i = r;
            },
            None => {
                proof {
                    assert(trees(acc@) + Seq::<PatternTree<Step>>::empty() =~= trees(acc@));
                }
                return (acc, i);
            },
        }
    }
    proof {
        assert(trees(acc@) + Seq::<PatternTree<Step>>::empty() =~= trees(acc@));
    }
    (acc, i)
}

fn sequence_at(g: bool, s: &[char], p: usize) -> (r: Option<(Vec<PatternElement<Step>>, usize)>)
    requires
        p <= s@.len(),
    ensures
        at_trees(r) == p_sequence(g, s@, p as int),
        r matches Some((v, q)) ==> p <= q <= s@.len() && pattern_wf(trees(v@)),
    decreases s@.len() - p, 5int,
{
    if g {
        let (es, q) = gate_seq_at(s, p);
        return Some((es, q));
    }
    match item_at(false, s, p) {
        None => None,
        Some((mut es, q)) => {
            let (mut rest, r) = value_rest_at(s, q);
            proof {
                lemma_trees_concat(es@, rest@);
                wf_concat(trees(es@), trees(rest@));
            }
            es.append(&mut rest);
            Some((es, r))
        },
    }
}

proof fn lemma_alts_trees_push(a: Seq<Vec<PatternElement<Step>>>, x: Vec<PatternElement<Step>>)
    ensures
        alts_trees(a.push(x)) == alts_trees(a).push(trees(x@)),
{
    lemma_alt_trees_of(a, a.len() as int);
    lemma_alt_trees_of(a.push(x), a.len() as int + 1);
    assert(alts_trees(a.push(x)) =~= alts_trees(a).push(trees(x@)));
}

fn alt_rest_at(g: bool, s: &[char], q: usize) -> (r: (Vec<Vec<PatternElement<Step>>>, usize))
    requires
        q <= s@.len(),
    ensures
        (alts_trees(r.0@), r.1 as int) == p_alt_rest(g, s@, q as int),
        q <= r.1 <= s@.len(),
        forall|i: int| 0 <= i < r.0@.len() ==> #[trigger] pattern_wf(alts_trees(r.0@)[i]),
        alts_trees(r.0@).len() == r.0@.len(),
    decreases s@.len() - q, 6int,
{
    let mut acc: Vec<Vec<PatternElement<Step>>> = Vec::new();
    let mut i = q;
    proof {
        lemma_alt_trees_of(acc@, 0);
        assert(alts_trees(acc@) + p_alt_rest(g, s@, i as int).0 =~= p_alt_rest(g, s@, i as int).0);
    }
    while i < s.len() && s[i] == ';'
        invariant
            q <= i <= s@.len(),
            p_alt_rest(g, s@, q as int) == (alts_trees(acc@) + p_alt_rest(g, s@, i as int).0, p_alt_rest(g, s@, i as int).1),
            alts_trees(acc@).len() == acc@.len(),
            forall|k: int| 0 <= k < acc@.len() ==> #[trigger] pattern_wf(alts_trees(acc@)[k]),
        decreases s@.len() - i,
    {
        match sequence_at(g, s, i + 1) {
            Some((es, r)) => {
                proof {
                    lemma_alts_trees_push(acc@, es);
                    assert(alts_trees(acc@) + (seq![trees(es@)] + p_alt_rest(g, s@, r as int).0) =~= alts_trees(acc@).push(trees(es@)) + p_alt_rest(g, s@, r as int).0);
                }
                acc.push(es);
                i = r;
            },
            None => {
                proof {
                    assert(alts_trees(acc@) + Seq::<Seq<PatternTree<Step>>>::empty() =~= alts_trees(acc@));
                }
                return (acc, i);
            },
        }
    }
    proof {
        assert(alts_trees(acc@) + Seq::<Seq<PatternTree<Step>>>::empty() =~= alts_trees(acc@));
    }
    (acc, i)
}

fn alternatives_at(g: bool, s: &[char], p: usize) -> (r: Option<(Vec<Vec<PatternElement<Step>>>, usize)>)
    requires
        p <= s@.len(),
    ensures
        at_alts(r) == p_alternatives(g, s@, p as int),
        r matches Some((v, q)) ==> p <= q <= s@.len() && v@.len() > 0 && alts_wf(alts_trees(v@), v@.len() as int),
    decreases s@.len() - p, 7int,
{
    match sequence_at(g, s, p) {
        None => None,
        Some((first, q)) => {
            let (mut rest, r) = alt_rest_at(g, s, q);
            let mut alts: Vec<Vec<PatternElement<Step>>> = Vec::new();
            let ghost rest_view = rest@;
            proof {
                lemma_alt_trees_of(alts@, 0);
                lemma_alts_trees_push(alts@, first);
            }
            alts.push(first);
            proof {
                lemma_alt_trees_of(alts@, alts@.len() as int);
                lemma_alt_trees_of(rest_view, rest_view.len() as int);
                lemma_alt_trees_of(alts@ + rest_view, (alts@ + rest_view).len() as int);
                assert(alts_trees(alts@ + rest_view) =~= alts_trees(alts@) + alts_trees(rest_view));
            }
            alts.append(&mut rest);
            proof {
                let a = alts_trees(alts@);
                lemma_alt_trees_of(alts@, alts@.len() as int);
                assert(a =~= seq![trees(first@)] + p_alt_rest(g, s@, q as int).0);
                lemma_alts_wf_iff(a, a.len() as int);
                assert forall|k: int| 0 <= k < a.len() implies #[trigger] pattern_wf(a[k]) by {
                    if k > 0 {
                        assert(a[k] == alts_trees(rest_view)[k - 1]);
                    }
                }
            }
            Some((alts, r))
        },
    }
}

/// The text ranges of the value tokens of a node, in order.
pub open spec fn element_tokens(e: PatternTree<Step>) -> Seq<(usize, usize)>
    decreases e, 0int,
{
    match e {
        PatternTree::Atom(st) => match st {
            Step::Value(a, b) => seq![(a, b)],
            _ => Seq::empty(),
        },
        PatternTree::Group(es) => seq_tokens(es, es.len() as int),
        PatternTree::Alternate(alts) => alt_tokens(alts, alts.len() as int),
    }
}

pub open spec fn seq_tokens(s: Seq<PatternTree<Step>>, k: int) -> Seq<(usize, usize)>
    decreases s, k,
{
    if k <= 0 || k > s.len() {
        Seq::empty()
    } else {
        seq_tokens(s, k - 1) + element_tokens(s[k - 1])
    }
}

pub open spec fn alt_tokens(a: Seq<Seq<PatternTree<Step>>>, k: int) -> Seq<(usize, usize)>
    decreases a, k,
{
    if k <= 0 || k > a.len() {
        Seq::empty()
    } else {
        alt_tokens(a, k - 1) + seq_tokens(a[k - 1], a[k - 1].len() as int)
    }
}

/// Appends the value tokens of `es`.
fn collect_tokens(es: &Vec<PatternElement<Step>>, out: &mut Vec<(usize, usize)>)
    ensures
        final(out)@ == old(out)@ + seq_tokens(trees(es@), es@.len() as int),
    decreases es,
{
    let ghost t = trees(es@);
    proof {
        lemma_trees_of(es@, es@.len() as int);
    }
    let mut i: usize = 0;
    assert(out@ =~= old(out)@ + seq_tokens(t, 0));
    while i < es.len()
        invariant
            i <= es@.len(),
            t == trees(es@),
            t.len() == es@.len(),
            forall|j: int| 0 <= j < es@.len() ==> #[trigger] t[j] == tree_of(es@[j]),
            out@ == old(out)@ + seq_tokens(t, i as int),
        decreases es@.len() - i,
    {
        let ghost before = out@;
        assert(decreases_to!(*es => es@));
        assert(decreases_to!(es@ => es@[i as int]));
        match &es[i] {
            PatternElement::Atom(st) => {
                match st {
                    Step::Value(a, b) => {
                        out.push((*a, *b));
                        assert(out@ =~= before + seq![(*a, *b)]);
                    },
                    _ => {
                        assert(out@ =~= before + Seq::<(usize, usize)>::empty());
                    },
                }
                assert(out@ == before + element_tokens(t[i as int]));
            },
            PatternElement::Group(g) => {
                assert(decreases_to!(es@[i as int] => es@[i as int]->Group_0));
                proof {
                    lemma_trees_of(g@, g@.len() as int);
                }
                collect_tokens(g, out);
                assert(out@ == before + element_tokens(t[i as int]));
            },
            PatternElement::Alternate(alts) => {
                let ghost a = alts_trees(alts@);
                proof {
                    lemma_alt_trees_of(alts@, alts@.len() as int);
                }
                let mut k: usize = 0;
                assert(out@ =~= before + alt_tokens(a, 0));
                while k < alts.len()
                    invariant
                        i < es@.len(),
                        es@[i as int] == PatternElement::<Step>::Alternate(*alts),
                        a == alts_trees(alts@),
                        a.len() == alts@.len(),
                        forall|j: int| 0 <= j < a.len() ==> #[trigger] a[j] == trees(alts@[j]@),
                        k <= alts@.len(),
                        out@ == before + alt_tokens(a, k as int),
                    decreases alts@.len() - k,
                {
                    assert(decreases_to!(*es => es@));
                    assert(decreases_to!(es@ => es@[i as int]));
                    assert(decreases_to!(es@[i as int] => es@[i as int]->Alternate_0));
                    assert(decreases_to!(*alts => alts@));
                    assert(decreases_to!(alts@ => alts@[k as int]));
                    proof {
                        lemma_trees_of(alts@[k as int]@, alts@[k as int]@.len() as int);
                    }
                    collect_tokens(&alts[k], out);
                    k = k + 1;
                    assert(out@ =~= before + alt_tokens(a, k as int));
                }
                assert(t[i as int] == PatternTree::Alternate(a));
                assert(out@ == before + element_tokens(t[i as int]));
            },
        }
        i = i + 1;
        assert(out@ =~= old(out)@ + seq_tokens(t, i as int));
    }
}

/// The value tokens of a value pattern, as text ranges in order; none when
/// the pattern does not parse.
pub open spec fn value_tokens(text: Seq<char>) -> Seq<(usize, usize)> {
    match parse_value_text(text) {
        Some(es) => seq_tokens(es, es.len() as int),
        None => Seq::empty(),
    }
}

/// The cells of every cycle of a value pattern's period, each cell with
/// the range of the value token it takes. Empty where the pattern does not
/// parse, where a cycle has no value, or where the period does not fit in
/// a `usize`.
pub open spec fn value_cells(text: Seq<char>) -> Seq<Seq<CellView<(usize, usize)>>> {
    match parse_value_text(text) {
        None => Seq::empty(),
        Some(es) => {
            let p = pattern_period(es);
            if p > usize::MAX || exists|c: nat| c < p && (#[trigger] resolve_holds(flatten(es, c))).len() == 0 {
                Seq::empty()
            } else {
                Seq::new(p, |c: int| resolve_holds(flatten(es, c as nat)))
            }
        },
    }
}

/// The cells of every cycle of a gate pattern's period, on or off. Empty
/// where the pattern does not parse or has no step, where a cycle has no
/// cell, or where the period does not fit in a `usize`.
pub open spec fn gate_cells(text: Seq<char>) -> Seq<Seq<CellView<bool>>> {
    match parse_gate_text(text) {
        None => Seq::empty(),
        Some(es) => compiled(es).map_values(
            |cells: Seq<CellView<Step>>| cells.map_values(|c: CellView<Step>| (c.0, c.1 == Step::On)),
        ),
    }
}

/// Tiling depends on the paths of the cells alone.
proof fn lemma_tiles_same_paths<T, U>(a: Seq<CellView<T>>, b: Seq<CellView<U>>, ln: int, ld: int, rn: int, rd: int)
    requires
        tiles(a, ln, ld, rn, rd),
        a.len() == b.len(),
        forall|i: int| 0 <= i < a.len() ==> #[trigger] a[i].0 == b[i].0,
    ensures
        tiles(b, ln, ld, rn, rd),
{
    assert(a[0].0 == b[0].0);
    assert(a[a.len() - 1].0 == b[b.len() - 1].0);
    assert forall|j: int| 0 <= j < b.len() - 1 implies (path_num(#[trigger] b[j].0) + 1) * path_den(b[j + 1].0) == path_num(
        b[j + 1].0,
    ) * path_den(b[j].0) by {
        assert(a[j].0 == b[j].0 && a[j + 1].0 == b[j + 1].0);
    }
}

/// In a gate pattern without empty steps, the cells of every cycle follow
/// one another over the whole cycle, from 0 to 1, without gap or overlap.
pub proof fn lemma_gate_cells_tile(text: Seq<char>, c: int)
    requires
        0 <= c < gate_cells(text).len(),
        parse_gate_text(text) matches Some(es) && 0 < es.len() <= usize::MAX && seq_dense(es, es.len() as int),
    ensures
        tiles(gate_cells(text)[c], 0, 1, 1, 1),
{
    let es = parse_gate_text(text)->Some_0;
    let cells = flatten(es, c as nat);
    assert(compiled(es)[c] == cells);
    lemma_cells_tile_cycle(es, c as nat);
    lemma_tiles_same_paths(cells, gate_cells(text)[c], 0, 1, 1, 1);
}

/// In a value pattern without empty steps, the cells of every cycle follow
/// one another over the whole cycle, from 0 to 1, without gap or overlap.
pub proof fn lemma_value_cells_tile(text: Seq<char>, c: int)
    requires
        0 <= c < value_cells(text).len(),
        parse_value_text(text) matches Some(es) && 0 < es.len() <= usize::MAX && seq_dense(es, es.len() as int),
    ensures
        tiles(value_cells(text)[c], 0, 1, 1, 1),
{
    let es = parse_value_text(text)->Some_0;
    let cells = flatten(es, c as nat);
    let resolved = resolve_holds(cells);
    assert(value_cells(text)[c] == resolved);
    lemma_cells_tile_cycle(es, c as nat);
    lemma_tiles_same_paths(cells, resolved, 0, 1, 1, 1);
}

/// A gate pattern, parsed.
fn parse_gate_elements(s: &[char]) -> (r: Option<Vec<PatternElement<Step>>>)
    ensures
        r matches Some(v) ==> parse_gate_text(s@) == Some(trees(v@)) && pattern_wf(trees(v@)),
        r is None ==> parse_gate_text(s@) is None,
{
    let (es, q) = gate_seq_at(s, 0);
    proof {
        lemma_trees_of(es@, es@.len() as int);
    }
    if skip_spaces_at(s, q) == s.len() && es.len() > 0 {
        Some(es)
    } else {
        None
    }
}

/// A value pattern, parsed.
fn parse_value_elements(s: &[char]) -> (r: Option<Vec<PatternElement<Step>>>)
    ensures
        r matches Some(v) ==> parse_value_text(s@) == Some(trees(v@)) && pattern_wf(trees(v@)),
        r is None ==> parse_value_text(s@) is None,
{
    match sequence_at(false, s, 0) {
        Some((es, q)) => if skip_spaces_at(s, q) == s.len() {
            Some(es)
        } else {
            None
        },
        None => None,
    }
}

/// Compiles a gate pattern such as `x.x. [xx]. <x.;.x> x(3,8)`: `x` or
/// `X` is on, `.` is off, `[..]` splits a step, `<..;..>` takes one
/// alternative per cycle, `*n` repeats, `x(p,s)` and `e(p,s)` spread `p`
/// onsets over `s` steps; commas and spaces separate. A pattern that does
/// not parse is refused.
pub fn parse_gates(pattern: &str) -> (r: Pattern<bool>)
    ensures
        r@ == gate_cells(pattern@),
{
    let s = chars_of(pattern);
    let es = match parse_gate_elements(s.as_slice()) {
        Some(es) => es,
        None => {
            let r = Pattern::empty();
            assert(r@ =~= gate_cells(pattern@));
            return r;
        },
    };
    let compiled = compile_pattern(&es);
    let ghost src = compiled@;
    let mut variants: Vec<Vec<Cell<bool>>> = Vec::new();
    let mut c: usize = 0;
    while c < compiled.variants.len()
        invariant
            c <= compiled.variants@.len(),
            src == compiled@,
            variants@.len() == c,
            forall|k: int| 0 <= k < c ==> #[trigger] cells_view(variants@[k]@) == src[k].map_values(|x: CellView<Step>| (x.0, x.1 == Step::On)),
        decreases compiled.variants@.len() - c,
    {
        let cells = &compiled.variants[c];
        let mut out: Vec<Cell<bool>> = Vec::new();
        let mut k: usize = 0;
        while k < cells.len()
            invariant
                k <= cells@.len(),
                cells_view(out@) == cells_view(cells@).take(k as int).map_values(|x: CellView<Step>| (x.0, x.1 == Step::On)),
            decreases cells@.len() - k,
        {
            let on = match cells[k].value {
                Step::On => true,
                _ => false,
            };
            let cell = Cell { path: copy_path(&cells[k].path), value: on };
            assert(cells_view(cells@)[k as int] == cells@[k as int]@);
            assert(cells_view(out@.push(cell)) =~= cells_view(out@).push(cell@));
            out.push(cell);
            k = k + 1;
            assert(cells_view(out@) =~= cells_view(cells@).take(k as int).map_values(|x: CellView<Step>| (x.0, x.1 == Step::On)));
        }
        assert(cells_view(cells@).take(k as int) =~= cells_view(cells@));
        variants.push(out);
        c = c + 1;
    }
    let r = Pattern { variants };
    assert(r@ =~= gate_cells(pattern@));
    r
}

/// A compiled value pattern: the cells of each cycle, each with the text
/// range of its value, and the ranges of all value tokens of the text.
pub struct ValuePattern {
    pub cells: Pattern<(usize, usize)>,
    pub tokens: Vec<(usize, usize)>,
}

/// Compiles a value pattern such as `60, [64, 67], <72; 76>, _, 60*2,
/// 60(3,8)`: values separated by commas, `_` holds the value before it
/// (wrapping round to the last value of the cycle), `[..]` splits a step,
/// `<..;..>` takes one alternative per cycle, `*n` repeats, `v(p,s)` puts
/// `v` on `p` of `s` steps and holds on the others. A pattern that does
/// not parse is refused. Whether each token is a number is left to the
/// caller: the pattern is refused if one is not.
pub fn parse_values(pattern: &str) -> (r: ValuePattern)
    ensures
        r.cells@ == value_cells(pattern@),
        r.tokens@ == value_tokens(pattern@),
{
    let s = chars_of(pattern);
    let es = match parse_value_elements(s.as_slice()) {
        Some(es) => es,
        None => {
            let r = ValuePattern { cells: Pattern::empty(), tokens: Vec::new() };
            assert(r.cells@ =~= value_cells(pattern@));
            assert(r.tokens@ =~= value_tokens(pattern@));
            return r;
        },
    };
    let ghost t = trees(es@);
    let mut tokens: Vec<(usize, usize)> = Vec::new();
    collect_tokens(&es, &mut tokens);
    proof {
        lemma_trees_of(es@, es@.len() as int);
    }
    assert(tokens@ =~= value_tokens(pattern@));
    let period = match period_of(&es) {
        Some(p) => p,
        None => {
            let r = ValuePattern { cells: Pattern::empty(), tokens };
            assert(r.cells@ =~= value_cells(pattern@));
            return r;
        },
    };
    let mut variants: Vec<Vec<Cell<(usize, usize)>>> = Vec::new();
    let mut c: usize = 0;
    while c < period
        invariant
            c <= period,
            period == pattern_period(t),
            period <= usize::MAX,
            t == trees(es@),
            parse_value_text(pattern@) == Some(t),
            tokens@ == value_tokens(pattern@),
            variants@.len() == c,
            forall|k: int| 0 <= k < c ==> cells_view(#[trigger] variants@[k]@) == resolve_holds(flatten(t, k as nat)),
            forall|k: nat| k < c ==> (#[trigger] resolve_holds(flatten(t, k))).len() > 0,
        decreases period - c,
    {
        let cells = flatten_pattern(&es, c);
        let resolved = resolve_value_holds(&cells);
        if resolved.len() == 0 {
            assert(resolve_holds(flatten(t, c as nat)).len() == 0);
            let r = ValuePattern { cells: Pattern::empty(), tokens };
            assert(r.cells@ =~= value_cells(pattern@));
            return r;
        }
        variants.push(resolved);
        c = c + 1;
    }
    let r = ValuePattern { cells: Pattern { variants }, tokens };
    assert(r.cells@ =~= value_cells(pattern@));
    r
}

/// What a pattern op remembers of one channel between samples: the cycle
/// it is in and, for a trigger, the cell it was in.
pub struct ChannelClock {
    pub cycle_count: usize,
    pub previous_index: Option<usize>,
}

impl ChannelClock {
    /// At the first cycle, in no cell yet.
    pub fn new() -> (r: Self)
        ensures
            r.cycle_count == 0,
            r.previous_index is None,
    {
        ChannelClock { cycle_count: 0, previous_index: None }
    }

    /// Counts one more cycle where the phase went back (wrapping round).
    pub fn advance(&mut self, wrapped: bool)
        ensures
            final(self).cycle_count == (if wrapped {
                vstd::wrapping::usize_specs::wrapping_add(old(self).cycle_count, 1)
            } else {
                old(self).cycle_count
            }),
            final(self).previous_index == old(self).previous_index,
    {
        if wrapped {
            self.cycle_count = self.cycle_count.wrapping_add(1);
        }
    }

    /// Moves to cell `index`: the trigger fires when that cell is active
    /// and either it was not the cell before or a new cycle began.
    pub fn enter(&mut self, index: usize, active: bool, wrapped: bool) -> (fires: bool)
        ensures
            fires == (active && (old(self).previous_index != Some(index) || wrapped)),
            final(self).previous_index == Some(index),
            final(self).cycle_count == old(self).cycle_count,
    {
        let entered = match self.previous_index {
            Some(i) => i != index,
            None => true,
        };
        self.previous_index = Some(index);
        (entered && active) || (wrapped && active)
    }
}

/// How many of the first `n` steps of a rhythm of `pulses` in `steps` are
/// on.
pub open spec fn onsets(pulses: int, steps: int, n: int) -> int
    decreases n,
{
    if n <= 0 {
        0
    } else {
        onsets(pulses, steps, n - 1) + if euclid_on(n - 1, pulses, steps) {
            1int
        } else {
            0
        }
    }
}

/// Between two steps, the count of whole cycles of `steps` in `k * pulses`
/// goes up by one exactly when step `k` is on.
proof fn lemma_onset_step(k: int, p: int, s: int)
    requires
        1 <= k,
        0 <= p <= s,
        s > 0,
    ensures
        (k * p) / s - ((k - 1) * p) / s == if euclid_on(k, p, s) {
            1int
        } else {
            0
        },
{
    let f1 = (k * p) / s;
    let f0 = ((k - 1) * p) / s;
    let r1 = (k * p) % s;
    let r0 = ((k - 1) * p) % s;
    vstd::arithmetic::div_mod::lemma_fundamental_div_mod(k * p, s);
    vstd::arithmetic::div_mod::lemma_fundamental_div_mod((k - 1) * p, s);
    assert(0 <= r1 < s && 0 <= r0 < s) by {
        vstd::arithmetic::div_mod::lemma_mod_bound(k * p, s);
        vstd::arithmetic::div_mod::lemma_mod_bound((k - 1) * p, s);
    }
    assert(k * p == (k - 1) * p + p) by (nonlinear_arith);
    let d = f1 - f0;
    assert(s * d == p - r1 + r0) by (nonlinear_arith)
        requires
            k * p == s * f1 + r1,
            (k - 1) * p == s * f0 + r0,
            k * p == (k - 1) * p + p,
            d == f1 - f0,
    ;
    if r1 < p {
        assert(d == 1) by (nonlinear_arith)
            requires
                s * d == p - r1 + r0,
                0 <= r0 < s,
                r1 < p,
                p <= s,
                0 <= r1,
                s > 0,
        ;
    } else {
        assert(d == 0) by (nonlinear_arith)
            requires
                s * d == p - r1 + r0,
                0 <= r0 < s,
                r1 >= p,
                p <= s,
                r1 < s,
                0 <= p,
                s > 0,
        ;
    }
}

proof fn lemma_onsets_prefix(p: int, s: int, n: int)
    requires
        1 <= n <= s,
        0 <= p <= s,
        s > 0,
    ensures
        onsets(p, s, n) == (if p > 0 {
            1int
        } else {
            0
        }) + ((n - 1) * p) / s,
    decreases n,
{
    if n == 1 {
        assert((0 * p) % s == 0 && (0 * p) / s == 0) by (nonlinear_arith)
            requires
                s > 0,
        ;
        assert(euclid_on(0, p, s) == (p > 0));
        assert(onsets(p, s, 0) == 0);
    } else {
        lemma_onsets_prefix(p, s, n - 1);
        lemma_onset_step(n - 1, p, s);
    }
}

/// A Euclidean rhythm of `pulses` in `steps` has exactly `pulses` onsets.
pub proof fn lemma_euclid_onsets(pulses: int, steps: int)
    requires
        0 <= pulses <= steps,
        steps > 0,
    ensures
        onsets(pulses, steps, steps) == pulses,
{
    lemma_onsets_prefix(pulses, steps, steps);
    if pulses > 0 {
        let q = pulses - 1;
        let r = steps - pulses;
        assert((steps - 1) * pulses == steps * q + r) by (nonlinear_arith)
            requires
                q == pulses - 1,
                r == steps - pulses,
        ;
        vstd::arithmetic::div_mod::lemma_fundamental_div_mod_converse((steps - 1) * pulses, steps, q, r);
    } else {
        assert((steps - 1) * pulses == 0) by (nonlinear_arith)
            requires
                pulses == 0,
        ;
    }
}

} // verus!
