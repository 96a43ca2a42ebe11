//! The program text: ops, and the rewriting of templates (`[ .. ] name`),
//! holes (`?`), comments (`;..`) and quotations before it is compiled.
use crate::text::{
    chars_eq, chars_of, contains_char, copy_chars, starts_with, string_of,
};
use crate::scale::{decimal_value, is_digit};
use vstd::prelude::*;

verus! {

/// An op of the program text: a node id and a token.
#[derive(Clone, Debug, Default, PartialEq, Eq)]
pub struct TextOp {
    pub id: u64,
    pub op: String,
}

/// An op seen as its id and the characters of its token.
pub type OpView = (u64, Seq<char>);

impl View for TextOp {
    type V = OpView;

    open spec fn view(&self) -> OpView {
        (self.id, self.op@)
    }
}

/// The views of a run of ops.
pub open spec fn ops_view(s: Seq<TextOp>) -> Seq<OpView> {
    s.map_values(|t: TextOp| t@)
}

/// Opening marker of a quotation in the rewritten op stream.
pub open spec fn quote_open() -> Seq<char> {
    seq!['\u{1}', '(']
}

/// Closing marker of a quotation in the rewritten op stream.
pub open spec fn quote_close() -> Seq<char> {
    seq!['\u{1}', ')']
}

/// `;..` is a comment.
pub open spec fn is_comment(op: Seq<char>) -> bool {
    op.len() > 0 && op[0] == ';'
}

/// `[..` opens a template or a quotation.
pub open spec fn opens_group(op: Seq<char>) -> bool {
    op.len() > 0 && op[0] == '['
}

/// `]` alone closes one.
pub open spec fn is_group_close(op: Seq<char>) -> bool {
    op == seq![']']
}

/// `..]` without a `:` is a token followed by a close.
pub open spec fn closes_group(op: Seq<char>) -> bool {
    op.len() > 0 && op.last() == ']' && !op.contains(':')
}

/// A token with a `?` is a hole of a template.
pub open spec fn is_hole(op: Seq<char>) -> bool {
    op.contains('?')
}

/// `poly` and `poly:..` take the quotation before them.
pub open spec fn spec_is_quotation_consumer(op: Seq<char>) -> bool {
    op == seq!['p', 'o', 'l', 'y'] || (op.len() >= 5 && op.take(5) == seq![
        'p',
        'o',
        'l',
        'y',
        ':',
    ])
}

/// What `..]` leaves of its token: the token without its last character,
/// the `]`.
pub open spec fn strip_close(op: Seq<char>) -> Seq<char> {
    op.drop_last()
}

/// A template being defined or defined: its ops and how many of them are
/// holes.
pub struct TermSpec {
    pub holes: nat,
    pub ops: Seq<OpView>,
}

/// The state of the rewriter.
pub struct RewriteState {
    /// Ops still to process; the last one is processed next.
    pub stack: Seq<OpView>,
    /// Ops written out.
    pub result: Seq<OpView>,
    /// The template being collected, if any.
    pub new_term: Option<TermSpec>,
    /// Bracket groups open inside the template being collected.
    pub depth: nat,
    /// Templates by name.
    pub terms: Map<Seq<char>, TermSpec>,
}

/// The ops to process at the start: comments dropped, the first op on top.
pub open spec fn spec_initial_stack(s: Seq<OpView>) -> Seq<OpView>
    decreases s.len(),
{
    if s.len() == 0 {
        Seq::empty()
    } else {
        let rest = spec_initial_stack(s.drop_first());
        if is_comment(s[0].1) {
            rest
        } else {
            rest.push(s[0])
        }
    }
}

pub open spec fn spec_initial_state(s: Seq<OpView>) -> RewriteState {
    RewriteState {
        stack: spec_initial_stack(s),
        result: Seq::empty(),
        new_term: None,
        depth: 0,
        terms: Map::empty(),
    }
}

/// The first `k` ops of a template's expansion: each hole takes the next
/// of `holes`, every other op is copied with its id salted by `salt`. Also
/// how many holes were taken; `None` when the holes run out.
pub open spec fn expand_upto(ops: Seq<OpView>, holes: Seq<OpView>, salt: u64, k: nat) -> Option<
    (Seq<OpView>, nat),
>
    decreases k,
{
    if k == 0 {
        Some((Seq::empty(), 0))
    } else {
        match expand_upto(ops, holes, salt, (k - 1) as nat) {
            None => None,
            Some((out, used)) => {
                let t = ops[k - 1];
                if is_hole(t.1) {
                    if used < holes.len() {
                        Some((out.push(holes[used as int]), used + 1))
                    } else {
                        None
                    }
                } else {
                    Some((out.push((vstd::wrapping::u64_specs::wrapping_add(t.0, salt), t.1)), used))
                }
            },
        }
    }
}

/// A template's expansion with the given holes.
pub open spec fn spec_expand(term: TermSpec, holes: Seq<OpView>, salt: u64) -> Option<Seq<OpView>> {
    match expand_upto(term.ops, holes, salt, term.ops.len()) {
        Some((out, _)) => Some(out),
        None => None,
    }
}

/// A template with one more op.
pub open spec fn term_push(t: TermSpec, op: OpView) -> TermSpec {
    TermSpec { holes: t.holes, ops: t.ops.push(op) }
}

/// One step of the rewriter: processes the op on top of the stack. `None`
/// where the rewriter would fail (a template with more holes than it was
/// given).
pub open spec fn spec_step(st: RewriteState) -> Option<RewriteState>
    recommends
        st.stack.len() > 0,
{
    let stmt = st.stack.last();
    let stack = st.stack.drop_last();
    let op = stmt.1;
    if st.terms.contains_key(op) {
        let term = st.terms[op];
        match st.new_term {
            Some(t) => Some(
                RewriteState {
                    stack,
                    result: st.result,
                    new_term: Some(term_push(t, stmt)),
                    depth: st.depth,
                    terms: st.terms,
                },
            ),
            None => {
                if term.holes <= st.result.len() {
                    let keep = st.result.len() - term.holes;
                    match spec_expand(term, st.result.subrange(keep, st.result.len() as int), stmt.0) {
                        None => None,
                        Some(rewrite) => {
                            let quoted = stack.len() > 0 && spec_is_quotation_consumer(
                                stack.last().1,
                            );
                            let s1 = if quoted {
                                stack.push((0u64, quote_close()))
                            } else {
                                stack
                            };
                            let s2 = s1 + rewrite.reverse();
                            let s3 = if quoted {
                                s2.push((0u64, quote_open()))
                            } else {
                                s2
                            };
                            Some(
                                RewriteState {
                                    stack: s3,
                                    result: st.result.take(keep),
                                    new_term: None,
                                    depth: st.depth,
                                    terms: st.terms,
                                },
                            )
                        },
                    }
                } else {
                    Some(
                        RewriteState {
                            stack,
                            result: st.result,
                            new_term: None,
                            depth: st.depth,
                            terms: st.terms,
                        },
                    )
                }
            },
        }
    } else if opens_group(op) {
        match st.new_term {
            Some(t) => Some(
                RewriteState {
                    stack,
                    result: st.result,
                    new_term: Some(term_push(t, stmt)),
                    depth: st.depth + 1,
                    terms: st.terms,
                },
            ),
            None => {
                let token = op.drop_first();
                Some(
                    RewriteState {
                        stack: if token.len() > 0 {
                            stack.push((stmt.0, token))
                        } else {
                            stack
                        },
                        result: st.result,
                        new_term: Some(TermSpec { holes: 0, ops: Seq::empty() }),
                        depth: 0,
                        terms: st.terms,
                    },
                )
            },
        }
    } else if is_group_close(op) {
        if st.depth > 0 {
            Some(
                RewriteState {
                    stack,
                    result: st.result,
                    new_term: match st.new_term {
                        Some(t) => Some(term_push(t, stmt)),
                        None => None,
                    },
                    depth: (st.depth - 1) as nat,
                    terms: st.terms,
                },
            )
        } else {
            match st.new_term {
                None => Some(
                    RewriteState {
                        stack,
                        result: st.result,
                        new_term: None,
                        depth: st.depth,
                        terms: st.terms,
                    },
                ),
                Some(term) => {
                    if stack.len() == 0 {
                        Some(
                            RewriteState {
                                stack,
                                result: st.result,
                                new_term: None,
                                depth: st.depth,
                                terms: st.terms,
                            },
                        )
                    } else {
                        let next = stack.last();
                        if spec_is_quotation_consumer(next.1) {
                            Some(
                                RewriteState {
                                    stack: (stack.push((0u64, quote_close())) + term.ops.reverse()).push(
                                        (0u64, quote_open()),
                                    ),
                                    result: st.result,
                                    new_term: None,
                                    depth: st.depth,
                                    terms: st.terms,
                                },
                            )
                        } else {
                            Some(
                                RewriteState {
                                    stack: stack.drop_last(),
                                    result: st.result,
                                    new_term: None,
                                    depth: st.depth,
                                    terms: st.terms.insert(next.1, term),
                                },
                            )
                        }
                    }
                },
            }
        }
    } else if closes_group(op) {
        if st.new_term is Some {
            Some(
                RewriteState {
                    stack: stack.push((0u64, seq![']'])).push((stmt.0, strip_close(op))),
                    result: st.result,
                    new_term: st.new_term,
                    depth: st.depth,
                    terms: st.terms,
                },
            )
        } else {
            Some(
                RewriteState {
                    stack,
                    result: st.result,
                    new_term: st.new_term,
                    depth: st.depth,
                    terms: st.terms,
                },
            )
        }
    } else {
        match st.new_term {
            Some(t) => Some(
                RewriteState {
                    stack,
                    result: st.result,
                    new_term: Some(
                        TermSpec {
                            holes: if is_hole(op) {
                                t.holes + 1
                            } else {
                                t.holes
                            },
                            ops: t.ops.push(stmt),
                        },
                    ),
                    depth: st.depth,
                    terms: st.terms,
                },
            ),
            None => Some(
                RewriteState {
                    stack,
                    result: st.result.push(stmt),
                    new_term: None,
                    depth: st.depth,
                    terms: st.terms,
                },
            ),
        }
    }
}

/// The state after at most `fuel` steps, stopping early once no op is left.
/// `None` when a step fails on the way.
pub open spec fn spec_run(st: RewriteState, fuel: nat) -> Option<RewriteState>
    decreases fuel,
{
    if st.stack.len() == 0 || fuel == 0 {
        Some(st)
    } else {
        match spec_step(st) {
            None => None,
            Some(next) => spec_run(next, (fuel - 1) as nat),
        }
    }
}

/// The rewriter processes every op of `stmts` within `fuel` steps, and no
/// step fails.
pub open spec fn halts_within(stmts: Seq<OpView>, fuel: nat) -> bool {
    match spec_run(spec_initial_state(stmts), fuel) {
        Some(f) => f.stack.len() == 0,
        None => false,
    }
}

/// The rewriter processes every op of `stmts` and no step fails: a template
/// that expands to itself never finishes, and one with more holes than it
/// collected fails.
pub open spec fn rewrite_halts(stmts: Seq<OpView>) -> bool {
    exists|fuel: nat| halts_within(stmts, fuel)
}

/// What the rewriter writes out for `stmts`, when it halts.
pub open spec fn spec_rewrite_terms(stmts: Seq<OpView>) -> Seq<OpView> {
    let fuel = choose|fuel: nat| halts_within(stmts, fuel);
    spec_run(spec_initial_state(stmts), fuel)->Some_0.result
}

/// Once no op is left, more fuel changes nothing.
proof fn lemma_run_more_fuel(st: RewriteState, fuel: nat, more: nat)
    requires
        spec_run(st, fuel) is Some,
        spec_run(st, fuel)->Some_0.stack.len() == 0,
        fuel <= more,
    ensures
        spec_run(st, more) == spec_run(st, fuel),
    decreases fuel,
{
    if st.stack.len() == 0 {
    } else if fuel == 0 {
    } else {
        let next = spec_step(st)->Some_0;
        lemma_run_more_fuel(next, (fuel - 1) as nat, (more - 1) as nat);
    }
}

/// Any fuel that suffices gives the same final state.
proof fn lemma_halting_state_unique(stmts: Seq<OpView>, fuel: nat)
    requires
        halts_within(stmts, fuel),
    ensures
        spec_run(spec_initial_state(stmts), fuel)->Some_0.result == spec_rewrite_terms(stmts),
{
    let init = spec_initial_state(stmts);
    let other = choose|f: nat| halts_within(stmts, f);
    if fuel <= other {
        lemma_run_more_fuel(init, fuel, other);
    } else {
        lemma_run_more_fuel(init, other, fuel);
    }
}

/// Whether an op, past the `[` it may begin with, begins with `;`: such an
/// op is a comment, or leaves one behind once its brackets are taken off.
pub open spec fn hides_comment(op: Seq<char>) -> bool {
    exists|i: int| 0 <= i < op.len() && op[i] == ';' && forall|j: int| 0 <= j < i ==> op[j] == '['
}

/// No op of the run hides a comment.
pub open spec fn comment_free(s: Seq<OpView>) -> bool {
    forall|i: int| 0 <= i < s.len() ==> !hides_comment(#[trigger] s[i].1)
}

/// No op anywhere in the rewriter's state hides a comment.
pub open spec fn state_comment_free(st: RewriteState) -> bool {
    &&& comment_free(st.stack)
    &&& comment_free(st.result)
    &&& (st.new_term matches Some(t) ==> comment_free(t.ops))
    &&& forall|k: Seq<char>| #[trigger] st.terms.contains_key(k) ==> comment_free(st.terms[k].ops)
}

proof fn lemma_prefix_hides(op: Seq<char>, n: int)
    requires
        0 <= n <= op.len(),
        hides_comment(op.take(n)),
    ensures
        hides_comment(op),
{
    let i = choose|i: int| 0 <= i < op.take(n).len() && op.take(n)[i] == ';' && forall|j: int| 0 <= j < i ==> op.take(n)[j] == '[';
    assert forall|j: int| 0 <= j < i implies op[j] == '[' by {
        assert(op.take(n)[j] == op[j]);
    }
}

proof fn lemma_tail_hides(op: Seq<char>)
    requires
        op.len() > 0,
        op[0] == '[',
        hides_comment(op.drop_first()),
    ensures
        hides_comment(op),
{
    let t = op.drop_first();
    let i = choose|i: int| 0 <= i < t.len() && t[i] == ';' && forall|j: int| 0 <= j < i ==> t[j] == '[';
    assert(op[i + 1] == ';');
    assert forall|j: int| 0 <= j < i + 1 implies op[j] == '[' by {
        if j > 0 {
            assert(op[j] == t[j - 1]);
        }
    }
}

proof fn lemma_markers_clean()
    ensures
        !hides_comment(quote_open()),
        !hides_comment(quote_close()),
        !hides_comment(seq![']']),
{
    assert(!hides_comment(quote_open())) by {
        if hides_comment(quote_open()) {
            let i = choose|i: int| 0 <= i < quote_open().len() && quote_open()[i] == ';' && forall|j: int| 0 <= j < i ==> quote_open()[j] == '[';
            assert(quote_open()[0] != '[');
        }
    }
    assert(!hides_comment(quote_close())) by {
        if hides_comment(quote_close()) {
            let i = choose|i: int| 0 <= i < quote_close().len() && quote_close()[i] == ';' && forall|j: int| 0 <= j < i ==> quote_close()[j] == '[';
            assert(quote_close()[0] != '[');
        }
    }
}

proof fn lemma_expand_clean(ops: Seq<OpView>, holes: Seq<OpView>, salt: u64, k: nat)
    requires
        k <= ops.len(),
        comment_free(ops),
        comment_free(holes),
        expand_upto(ops, holes, salt, k) is Some,
    ensures
        comment_free(expand_upto(ops, holes, salt, k)->Some_0.0),
        expand_upto(ops, holes, salt, k)->Some_0.1 <= holes.len(),
    decreases k,
{
    if k > 0 {
        lemma_expand_clean(ops, holes, salt, (k - 1) as nat);
        let (out, used) = expand_upto(ops, holes, salt, (k - 1) as nat)->Some_0;
        let t = ops[k - 1];
        let next = expand_upto(ops, holes, salt, k)->Some_0.0;
        assert forall|i: int| 0 <= i < next.len() implies !hides_comment(#[trigger] next[i].1) by {
            if i < out.len() {
                assert(next[i] == out[i]);
            } else if is_hole(t.1) {
                assert(next[i] == holes[used as int]);
            } else {
                assert(next[i].1 == t.1);
            }
        }
    }
}

proof fn lemma_push_clean(s: Seq<OpView>, x: OpView)
    requires
        comment_free(s),
        !hides_comment(x.1),
    ensures
        comment_free(s.push(x)),
{
    assert forall|i: int| 0 <= i < s.push(x).len() implies !hides_comment(#[trigger] s.push(x)[i].1) by {
        if i < s.len() {
            assert(s.push(x)[i] == s[i]);
        }
    }
}

proof fn lemma_concat_clean(a: Seq<OpView>, b: Seq<OpView>)
    requires
        comment_free(a),
        comment_free(b),
    ensures
        comment_free(a + b),
        comment_free(b.reverse()),
{
    assert forall|i: int| 0 <= i < (a + b).len() implies !hides_comment(#[trigger] (a + b)[i].1) by {
        if i < a.len() {
            assert((a + b)[i] == a[i]);
        } else {
            assert((a + b)[i] == b[i - a.len()]);
        }
    }
    assert forall|i: int| 0 <= i < b.reverse().len() implies !hides_comment(#[trigger] b.reverse()[i].1) by {
        assert(b.reverse()[i] == b[b.len() - 1 - i]);
    }
}

proof fn lemma_sub_clean(s: Seq<OpView>, lo: int, hi: int)
    requires
        comment_free(s),
        0 <= lo <= hi <= s.len(),
    ensures
        comment_free(s.subrange(lo, hi)),
{
    assert forall|i: int| 0 <= i < s.subrange(lo, hi).len() implies !hides_comment(#[trigger] s.subrange(lo, hi)[i].1) by {
        assert(s.subrange(lo, hi)[i] == s[lo + i]);
    }
}

/// A step of the rewriter brings in no op that hides a comment.
proof fn lemma_step_comment_free(st: RewriteState)
    requires
        st.stack.len() > 0,
        state_comment_free(st),
        spec_step(st) is Some,
    ensures
        state_comment_free(spec_step(st)->Some_0),
{
    let next = spec_step(st)->Some_0;
    let stmt = st.stack.last();
    let stack = st.stack.drop_last();
    let op = stmt.1;
    lemma_markers_clean();
    lemma_sub_clean(st.stack, 0, st.stack.len() - 1);
    assert(stack == st.stack.subrange(0, st.stack.len() - 1));
    assert(!hides_comment(op));
    if st.terms.contains_key(op) {
        let term = st.terms[op];
        match st.new_term {
            Some(t) => {
                lemma_push_clean(t.ops, stmt);
            },
            None => {
                if term.holes <= st.result.len() {
                    let keep = st.result.len() - term.holes;
                    let holes = st.result.subrange(keep, st.result.len() as int);
                    lemma_sub_clean(st.result, keep, st.result.len() as int);
                    lemma_sub_clean(st.result, 0, keep);
                    assert(st.result.take(keep) == st.result.subrange(0, keep));
                    lemma_expand_clean(term.ops, holes, stmt.0, term.ops.len());
                    let rewrite = spec_expand(term, holes, stmt.0)->Some_0;
                    let quoted = stack.len() > 0 && spec_is_quotation_consumer(stack.last().1);
                    let s1 = if quoted { stack.push((0u64, quote_close())) } else { stack };
                    if quoted {
                        lemma_push_clean(stack, (0u64, quote_close()));
                    }
                    lemma_concat_clean(s1, rewrite);
                    lemma_concat_clean(s1, rewrite.reverse());
                    let s2 = s1 + rewrite.reverse();
                    if quoted {
                        lemma_push_clean(s2, (0u64, quote_open()));
                    }
                }
            },
        }
    } else if opens_group(op) {
        match st.new_term {
            Some(t) => {
                lemma_push_clean(t.ops, stmt);
            },
            None => {
                let token = op.drop_first();
                if token.len() > 0 {
                    if hides_comment(token) {
                        lemma_tail_hides(op);
                    }
                    lemma_push_clean(stack, (stmt.0, token));
                }
                assert(comment_free(Seq::<OpView>::empty()));
            },
        }
    } else if is_group_close(op) {
        if st.depth > 0 {
            if let Some(t) = st.new_term {
                lemma_push_clean(t.ops, stmt);
            }
        } else if let Some(term) = st.new_term {
            if stack.len() > 0 {
                let n = stack.last();
                if spec_is_quotation_consumer(n.1) {
                    lemma_push_clean(stack, (0u64, quote_close()));
                    lemma_concat_clean(stack.push((0u64, quote_close())), term.ops);
                    lemma_concat_clean(stack.push((0u64, quote_close())), term.ops.reverse());
                    lemma_push_clean(stack.push((0u64, quote_close())) + term.ops.reverse(), (0u64, quote_open()));
                } else {
                    lemma_sub_clean(stack, 0, stack.len() - 1);
                    assert(stack.drop_last() == stack.subrange(0, stack.len() - 1));
                    assert forall|k: Seq<char>| #[trigger] next.terms.contains_key(k) implies comment_free(next.terms[k].ops) by {
                        if k != n.1 {
                            assert(st.terms.contains_key(k));
                        }
                    }
                }
            }
        }
    } else if closes_group(op) {
        if st.new_term is Some {
            let stripped = strip_close(op);
            if hides_comment(stripped) {
                lemma_prefix_hides(op, op.len() - 1);
            }
            lemma_push_clean(stack, (0u64, seq![']']));
            lemma_push_clean(stack.push((0u64, seq![']'])), (stmt.0, stripped));
        }
    } else {
        match st.new_term {
            Some(t) => {
                lemma_push_clean(t.ops, stmt);
            },
            None => {
                lemma_push_clean(st.result, stmt);
            },
        }
    }
}

proof fn lemma_run_comment_free(st: RewriteState, fuel: nat)
    requires
        state_comment_free(st),
        spec_run(st, fuel) is Some,
    ensures
        state_comment_free(spec_run(st, fuel)->Some_0),
    decreases fuel,
{
    if st.stack.len() > 0 && fuel > 0 {
        lemma_step_comment_free(st);
        lemma_run_comment_free(spec_step(st)->Some_0, (fuel - 1) as nat);
    }
}

proof fn lemma_initial_comment_free(s: Seq<OpView>)
    requires
        forall|i: int| 0 <= i < s.len() ==> is_comment(#[trigger] s[i].1) || !hides_comment(s[i].1),
    ensures
        comment_free(spec_initial_stack(s)),
    decreases s.len(),
{
    if s.len() > 0 {
        let rest = s.drop_first();
        assert forall|i: int| 0 <= i < rest.len() implies is_comment(#[trigger] rest[i].1) || !hides_comment(rest[i].1) by {
            assert(rest[i] == s[i + 1]);
        }
        lemma_initial_comment_free(rest);
        if !is_comment(s[0].1) {
            lemma_push_clean(spec_initial_stack(rest), s[0]);
        }
    }
}

/// Comments never reach the compiler: where no op of the program but its
/// comments begins (past any `[`) with `;`, no op of the rewritten program
/// does, and none is a comment.
pub proof fn lemma_rewrite_drops_comments(stmts: Seq<OpView>)
    requires
        rewrite_halts(stmts),
        forall|i: int| 0 <= i < stmts.len() ==> is_comment(#[trigger] stmts[i].1) || !hides_comment(stmts[i].1),
    ensures
        comment_free(spec_rewrite_terms(stmts)),
        forall|i: int| 0 <= i < spec_rewrite_terms(stmts).len() ==> !is_comment(#[trigger] spec_rewrite_terms(stmts)[i].1),
{
    let fuel = choose|fuel: nat| halts_within(stmts, fuel);
    let init = spec_initial_state(stmts);
    lemma_initial_comment_free(stmts);
    assert(comment_free(Seq::<OpView>::empty()));
    lemma_run_comment_free(init, fuel);
    let r = spec_rewrite_terms(stmts);
    assert forall|i: int| 0 <= i < r.len() implies !is_comment(#[trigger] r[i].1) by {
        if is_comment(r[i].1) {
            assert(hides_comment(r[i].1));
        }
    }
}

/// An op that the rewriter writes out as it is when no template is being
/// collected and none is named by it: it opens no group and closes none.
pub open spec fn is_plain(op: Seq<char>) -> bool {
    !opens_group(op) && !is_group_close(op) && !closes_group(op)
}

/// Every op of the run is plain.
pub open spec fn all_plain(s: Seq<OpView>) -> bool {
    forall|i: int| 0 <= i < s.len() ==> is_plain(#[trigger] s[i].1)
}

/// The ops of `s` that are not comments, in order.
pub open spec fn without_comments(s: Seq<OpView>) -> Seq<OpView>
    decreases s.len(),
{
    if s.len() == 0 {
        Seq::empty()
    } else {
        let rest = without_comments(s.drop_first());
        if is_comment(s[0].1) {
            rest
        } else {
            seq![s[0]] + rest
        }
    }
}

proof fn lemma_initial_stack_reversed(s: Seq<OpView>)
    ensures
        spec_initial_stack(s) == without_comments(s).reverse(),
    decreases s.len(),
{
    if s.len() > 0 {
        lemma_initial_stack_reversed(s.drop_first());
        let rest = without_comments(s.drop_first());
        if !is_comment(s[0].1) {
            assert((seq![s[0]] + rest).reverse() =~= rest.reverse().push(s[0]));
        }
    }
}

proof fn lemma_without_comments_plain(s: Seq<OpView>)
    requires
        forall|i: int| 0 <= i < s.len() ==> is_comment(#[trigger] s[i].1) || is_plain(s[i].1),
    ensures
        all_plain(without_comments(s)),
        forall|i: int| 0 <= i < without_comments(s).len() ==> !is_comment(#[trigger] without_comments(s)[i].1),
        (forall|i: int| 0 <= i < s.len() ==> !is_comment(#[trigger] s[i].1)) ==> without_comments(s) == s,
    decreases s.len(),
{
    if s.len() > 0 {
        let rest = s.drop_first();
        assert forall|i: int| 0 <= i < rest.len() implies is_comment(#[trigger] rest[i].1) || is_plain(rest[i].1) by {
            assert(rest[i] == s[i + 1]);
        }
        lemma_without_comments_plain(rest);
        if forall|i: int| 0 <= i < s.len() ==> !is_comment(#[trigger] s[i].1) {
            assert forall|i: int| 0 <= i < rest.len() implies !is_comment(#[trigger] rest[i].1) by {
                assert(rest[i] == s[i + 1]);
            }
            assert(!is_comment(s[0].1));
            assert(seq![s[0]] + rest =~= s);
        }
        let w = without_comments(s);
        let wr = without_comments(rest);
        if !is_comment(s[0].1) {
            assert forall|i: int| 0 <= i < w.len() implies is_plain(#[trigger] w[i].1) && !is_comment(w[i].1) by {
                if i > 0 {
                    assert(w[i] == wr[i - 1]);
                }
            }
        }
    }
}

/// With no template defined or being collected, a stack of plain ops is
/// written out one op after another.
proof fn lemma_run_plain(st: RewriteState)
    requires
        st.new_term is None,
        st.terms == Map::<Seq<char>, TermSpec>::empty(),
        all_plain(st.stack),
    ensures
        spec_run(st, st.stack.len()) == Some(
            RewriteState { stack: Seq::empty(), result: st.result + st.stack.reverse(), ..st },
        ),
    decreases st.stack.len(),
{
    if st.stack.len() == 0 {
        assert(st.result + st.stack.reverse() =~= st.result);
        assert(st.stack =~= Seq::<OpView>::empty());
    } else {
        let stmt = st.stack.last();
        assert(is_plain(stmt.1));
        let next = RewriteState { stack: st.stack.drop_last(), result: st.result.push(stmt), ..st };
        assert(spec_step(st) == Some(next));
        assert forall|i: int| 0 <= i < next.stack.len() implies is_plain(#[trigger] next.stack[i].1) by {
            assert(next.stack[i] == st.stack[i]);
        }
        lemma_run_plain(next);
        assert(next.result + next.stack.reverse() =~= st.result + st.stack.reverse());
    }
}

/// A program of plain ops and comments is written out as it is, without its
/// comments: it names no template and defines none.
pub proof fn lemma_plain_program_unchanged(stmts: Seq<OpView>)
    requires
        forall|i: int| 0 <= i < stmts.len() ==> is_comment(#[trigger] stmts[i].1) || is_plain(stmts[i].1),
    ensures
        rewrite_halts(stmts),
        spec_rewrite_terms(stmts) == without_comments(stmts),
        (forall|i: int| 0 <= i < stmts.len() ==> !is_comment(#[trigger] stmts[i].1)) ==> spec_rewrite_terms(
            stmts,
        ) == stmts,
{
    let init = spec_initial_state(stmts);
    lemma_initial_stack_reversed(stmts);
    lemma_without_comments_plain(stmts);
    let w = without_comments(stmts);
    assert forall|i: int| 0 <= i < init.stack.len() implies is_plain(#[trigger] init.stack[i].1) by {
        assert(init.stack[i] == w[w.len() - 1 - i]);
    }
    lemma_run_plain(init);
    assert(w.reverse().reverse() =~= w);
    assert(Seq::<OpView>::empty() + w =~= w);
    let fuel = init.stack.len();
    assert(halts_within(stmts, fuel));
    lemma_halting_state_unique(stmts, fuel);
}

/// A step writes out only plain ops.
proof fn lemma_step_plain(st: RewriteState)
    requires
        st.stack.len() > 0,
        all_plain(st.result),
        spec_step(st) is Some,
    ensures
        all_plain(spec_step(st)->Some_0.result),
{
    let next = spec_step(st)->Some_0;
    let r = st.result;
    assert forall|i: int| 0 <= i < next.result.len() implies is_plain(#[trigger] next.result[i].1) by {
        if i < r.len() {
            assert(next.result[i] == r[i]);
        }
    }
}

proof fn lemma_run_writes_plain(st: RewriteState, fuel: nat)
    requires
        all_plain(st.result),
        spec_run(st, fuel) is Some,
    ensures
        all_plain(spec_run(st, fuel)->Some_0.result),
    decreases fuel,
{
    if st.stack.len() > 0 && fuel > 0 {
        lemma_step_plain(st);
        lemma_run_writes_plain(spec_step(st)->Some_0, (fuel - 1) as nat);
    }
}

/// The rewriter writes out only plain ops: rewriting its output once more
/// changes nothing but to drop the comments it may hold; so, where no op of
/// the program but its comments hides one, rewriting twice is rewriting
/// once.
pub proof fn lemma_rewrite_idempotent(stmts: Seq<OpView>)
    requires
        rewrite_halts(stmts),
    ensures
        all_plain(spec_rewrite_terms(stmts)),
        rewrite_halts(spec_rewrite_terms(stmts)),
        spec_rewrite_terms(spec_rewrite_terms(stmts)) == without_comments(spec_rewrite_terms(stmts)),
        (forall|i: int| 0 <= i < stmts.len() ==> is_comment(#[trigger] stmts[i].1) || !hides_comment(stmts[i].1))
            ==> spec_rewrite_terms(spec_rewrite_terms(stmts)) == spec_rewrite_terms(stmts),
{
    let fuel = choose|fuel: nat| halts_within(stmts, fuel);
    let init = spec_initial_state(stmts);
    assert(all_plain(init.result));
    lemma_run_writes_plain(init, fuel);
    let r = spec_rewrite_terms(stmts);
    lemma_plain_program_unchanged(r);
    if forall|i: int| 0 <= i < stmts.len() ==> is_comment(#[trigger] stmts[i].1) || !hides_comment(stmts[i].1) {
        lemma_rewrite_drops_comments(stmts);
    }
}

/// A token during rewriting.
struct Tok {
    id: u64,
    op: Vec<char>,
}

impl View for Tok {
    type V = OpView;

    closed spec fn view(&self) -> OpView {
        (self.id, self.op@)
    }
}

fn tok_copy(t: &Tok) -> (r: Tok)
    ensures
        r@ == t@,
{
    Tok { id: t.id, op: copy_chars(t.op.as_slice()) }
}

spec fn toks_view(s: Seq<Tok>) -> Seq<OpView> {
    s.map_values(|t: Tok| t@)
}

/// A template.
struct TermBody {
    holes: usize,
    ops: Vec<Tok>,
}

impl View for TermBody {
    type V = TermSpec;

    closed spec fn view(&self) -> TermSpec {
        TermSpec { holes: self.holes as nat, ops: toks_view(self.ops@) }
    }
}

/// The template table: names and bodies side by side, names distinct, and
/// `terms` the map from each name to its body.
#[verifier::opaque]
spec fn table_wf(names: Seq<Vec<char>>, bodies: Seq<TermBody>, terms: Map<Seq<char>, TermSpec>) -> bool {
    &&& names.len() == bodies.len()
    &&& forall|i: int, j: int| 0 <= i < j < names.len() ==> #[trigger] names[i]@ != #[trigger] names[j]@
    &&& forall|k: Seq<char>|
        #[trigger] terms.contains_key(k) <==> exists|i: int| 0 <= i < names.len() && #[trigger] names[i]@ == k
    &&& forall|i: int| 0 <= i < names.len() ==> terms[#[trigger] names[i]@] == bodies[i]@
}

/// The rewriter's state.
struct Rewriter {
    stack: Vec<Tok>,
    result: Vec<Tok>,
    new_term: Option<TermBody>,
    depth: usize,
    /// Template names and bodies, side by side.
    names: Vec<Vec<char>>,
    bodies: Vec<TermBody>,
    terms: Ghost<Map<Seq<char>, TermSpec>>,
}

impl Rewriter {
    closed spec fn wf(&self) -> bool {
        &&& table_wf(self.names@, self.bodies@, self.terms@)
        &&& match &self.new_term {
            None => self.depth == 0,
            Some(t) => self.depth <= t.ops@.len() && t.holes <= t.ops@.len(),
        }
    }

    closed spec fn view(&self) -> RewriteState {
        RewriteState {
            stack: toks_view(self.stack@),
            result: toks_view(self.result@),
            new_term: match &self.new_term {
                None => None,
                Some(t) => Some(t@),
            },
            depth: self.depth as nat,
            terms: self.terms@,
        }
    }
}

/// The expansion stops failing no later than where it first fails.
proof fn lemma_expand_none_stays(ops: Seq<OpView>, holes: Seq<OpView>, salt: u64, k: nat, m: nat)
    requires
        expand_upto(ops, holes, salt, k) is None,
        k <= m,
    ensures
        expand_upto(ops, holes, salt, m) is None,
    decreases m - k,
{
    if k < m {
        lemma_expand_none_stays(ops, holes, salt, k, (m - 1) as nat);
    }
}

/// Position of the template named `op`.
fn find_term(names: &Vec<Vec<char>>, op: &[char]) -> (r: Option<usize>)
    ensures
        r matches Some(i) ==> i < names@.len() && names@[i as int]@ == op@,
        r is None ==> forall|i: int| 0 <= i < names@.len() ==> #[trigger] names@[i]@ != op@,
{
    let mut i: usize = 0;
    while i < names.len()
        invariant
            i <= names@.len(),
            forall|k: int| 0 <= k < i ==> #[trigger] names@[k]@ != op@,
        decreases names@.len() - i,
    {
        if chars_eq(names[i].as_slice(), op) {
            return Some(i);
        }
        i = i + 1;
    }
    None
}

/// Whether the token takes the quotation before it (`poly`, `poly:..`).
fn quotation_consumer(op: &[char]) -> (r: bool)
    ensures
        r == spec_is_quotation_consumer(op@),
{
    let r = op.len() >= 4 && op[0] == 'p' && op[1] == 'o' && op[2] == 'l' && op[3] == 'y' && (
    op.len() == 4 || op[4] == ':');
    proof {
        let w = seq!['p', 'o', 'l', 'y'];
        let wc = seq!['p', 'o', 'l', 'y', ':'];
        if op@.len() == 4 && r {
            assert(op@ =~= w);
        }
        if op@.len() >= 5 && r {
            assert(op@.take(5) =~= wc);
        }
        if op@ == w {
            assert(op@[3] == 'y');
        }
        if op@.len() >= 5 && op@.take(5) == wc {
            assert(op@.take(5)[4] == ':');
            assert(op@.take(5)[0] == 'p');
            assert(op@.take(5)[1] == 'o');
            assert(op@.take(5)[2] == 'l');
            assert(op@.take(5)[3] == 'y');
        }
    }
    r
}

fn marker(open: bool) -> (t: Tok)
    ensures
        t@ == (0u64, if open {
            quote_open()
        } else {
            quote_close()
        }),
{
    let mut op: Vec<char> = Vec::new();
    op.push('\u{1}');
    op.push(if open {
        '('
    } else {
        ')'
    });
    let t = Tok { id: 0, op };
    assert(t@.1 =~= (if open {
        quote_open()
    } else {
        quote_close()
    }));
    t
}

proof fn lemma_toks_push(s: Seq<Tok>, t: Tok)
    ensures
        toks_view(s.push(t)) == toks_view(s).push(t@),
{
    assert(toks_view(s.push(t)) =~= toks_view(s).push(t@));
}

proof fn lemma_toks_drop_last(s: Seq<Tok>)
    requires
        s.len() > 0,
    ensures
        toks_view(s.drop_last()) == toks_view(s).drop_last(),
        toks_view(s).last() == s.last()@,
{
    assert(toks_view(s.drop_last()) =~= toks_view(s).drop_last());
}

proof fn lemma_toks_subrange(s: Seq<Tok>, a: int, b: int)
    requires
        0 <= a <= b <= s.len(),
    ensures
        toks_view(s.subrange(a, b)) == toks_view(s).subrange(a, b),
{
    assert(toks_view(s.subrange(a, b)) =~= toks_view(s).subrange(a, b));
}

impl Rewriter {
    fn new(stmts: &[TextOp]) -> (r: Self)
        ensures
            r.wf(),
            r.view() == spec_initial_state(ops_view(stmts@)),
    {
        let mut stack: Vec<Tok> = Vec::new();
        let mut i: usize = stmts.len();
        let ghost all = ops_view(stmts@);
        assert(all.skip(all.len() as int) =~= Seq::<OpView>::empty());
        while i > 0
            invariant
                i <= stmts@.len(),
                all == ops_view(stmts@),
                toks_view(stack@) == spec_initial_stack(all.skip(i as int)),
            decreases i,
        {
            i = i - 1;
            let op = chars_of(stmts[i].op.as_str());
            let ghost sub = all.skip(i as int);
            assert(sub.drop_first() =~= all.skip(i + 1));
            assert(sub[0] == all[i as int]);
            if !(op.len() > 0 && op[0] == ';') {
                let t = Tok { id: stmts[i].id, op };
                proof {
                    lemma_toks_push(stack@, t);
                }
                stack.push(t);
            }
        }
        assert(all.skip(0) =~= all);
        proof {
            reveal(table_wf);
        }
        let r = Rewriter {
            stack,
            result: Vec::new(),
            new_term: None,
            depth: 0,
            names: Vec::new(),
            bodies: Vec::new(),
            terms: Ghost(Map::empty()),
        };
        assert(toks_view(r.result@) =~= Seq::<OpView>::empty());
        r
    }

    /// Appends `op` to the template being collected.
    fn collect(&mut self, t: Tok)
        requires
            old(self).wf(),
            old(self).new_term is Some,
        ensures
            final(self).wf(),
            final(self).view() == (RewriteState {
                new_term: Some(term_push(old(self).view().new_term->Some_0, t@)),
                ..old(self).view()
            }),
    {
        let ghost t_view = t@;
        match &mut self.new_term {
            Some(term) => {
                proof {
                    lemma_toks_push(term.ops@, t);
                }
                term.ops.push(t);
                let _ = term.ops.len();
            },
            None => {},
        }
    }
}

impl Rewriter {
    /// Expands the template at position `i` in place of the op `stmt`, which
    /// was just popped. Fails where the template has more holes than it
    /// was given.
    fn expand(&mut self, i: usize, stmt: Tok, Ghost(pre): Ghost<RewriteState>) -> (ok: bool)
        requires
            old(self).wf(),
            i < old(self).names@.len(),
            old(self).names@[i as int]@ == stmt@.1,
            old(self).new_term is None,
            pre.stack.len() > 0,
            pre.stack.last() == stmt@,
            old(self).view() == (RewriteState { stack: pre.stack.drop_last(), ..pre }),
        ensures
            ok == (spec_step(pre) is Some),
            ok ==> final(self).wf() && final(self).view() == spec_step(pre)->Some_0,
    {
        proof {
            reveal(table_wf);
        }
        let ghost term = self.terms@[stmt@.1];
        assert(self.terms@.contains_key(stmt@.1));
        assert(term == self.bodies@[i as int]@);
        let holes = self.bodies[i].holes;
        let len = self.result.len();
        if holes > len {
            return true;
        }
        let keep = len - holes;
        let ghost old_result = self.result@;
        let taken = self.result.split_off(keep);
        proof {
            lemma_toks_subrange(old_result, keep as int, len as int);
            lemma_toks_subrange(old_result, 0, keep as int);
            assert(old_result.subrange(0, keep as int) =~= old_result.take(keep as int));
            assert(toks_view(old_result).subrange(0, keep as int) =~= toks_view(old_result).take(keep as int));
        }
        let ghost holes_view = toks_view(taken@);
        assert(pre.terms.contains_key(stmt@.1));
        assert(pre.terms[stmt@.1] == term);
        assert(pre.result == toks_view(old_result));
        assert(holes_view == pre.result.subrange(keep as int, pre.result.len() as int));
        assert(spec_step(pre) is None <==> spec_expand(term, holes_view, stmt@.0) is None);
        let mut rewrite: Vec<Tok> = Vec::new();
        let mut used: usize = 0;
        let n = self.bodies[i].ops.len();
        let mut k: usize = 0;
        assert(toks_view(rewrite@) =~= Seq::<OpView>::empty());
        while k < n
            invariant
                self.wf(),
                i < self.names@.len(),
                i < self.bodies@.len(),
                n == self.bodies@[i as int].ops@.len(),
                term == self.bodies@[i as int]@,
                k <= n,
                holes_view == toks_view(taken@),
                used <= taken@.len(),
                expand_upto(term.ops, holes_view, stmt@.0, k as nat) == Some((toks_view(rewrite@), used as nat)),
                spec_step(pre) is None <==> spec_expand(term, holes_view, stmt@.0) is None,
            decreases n - k,
        {
            let t = &self.bodies[i].ops[k];
            assert(term.ops[k as int] == t@);
            if contains_char(t.op.as_slice(), '?') {
                if used < taken.len() {
                    let h = tok_copy(&taken[used]);
                    proof {
                        lemma_toks_push(rewrite@, h);
                    }
                    rewrite.push(h);
                    used = used + 1;
                } else {
                    proof {
                        lemma_expand_none_stays(term.ops, holes_view, stmt@.0, (k + 1) as nat, n as nat);
                    }
                    return false;
                }
            } else {
                let c = Tok { id: t.id.wrapping_add(stmt.id), op: copy_chars(t.op.as_slice()) };
                proof {
                    lemma_toks_push(rewrite@, c);
                }
                rewrite.push(c);
            }
            k = k + 1;
        }
        assert(term.ops.len() == n);
        let ghost rw = toks_view(rewrite@);
        assert(spec_expand(term, holes_view, stmt@.0) == Some(rw));
        let mut stack: Vec<Tok> = Vec::new();
        std::mem::swap(&mut stack, &mut self.stack);
        let ghost base = toks_view(stack@);
        let sl = stack.len();
        let quoted = sl > 0 && quotation_consumer(stack[sl - 1].op.as_slice());
        proof {
            if sl > 0 {
                lemma_toks_drop_last(stack@);
            }
        }
        if quoted {
            let m = marker(false);
            proof {
                lemma_toks_push(stack@, m);
            }
            stack.push(m);
        }
        let ghost s1 = toks_view(stack@);
        let mut j: usize = rewrite.len();
        assert(rw.reverse().take(0) =~= Seq::<OpView>::empty());
        assert(s1 + Seq::<OpView>::empty() =~= s1);
        assert(rewrite@.take(j as int) =~= rewrite@);
        while j > 0
            invariant
                j == rewrite@.len(),
                j <= rw.len(),
                toks_view(rewrite@) == rw.take(j as int),
                toks_view(stack@) == s1 + rw.reverse().take(rw.len() - j),
            decreases j,
        {
            let ghost before = rewrite@;
            let t = rewrite.pop().unwrap();
            j = j - 1;
            proof {
                lemma_toks_drop_last(before);
                assert(t@ == rw[j as int]);
                lemma_toks_push(stack@, t);
                assert(rw.take(j + 1).drop_last() =~= rw.take(j as int));
                assert((s1 + rw.reverse().take(rw.len() - j - 1)).push(t@) =~= s1 + rw.reverse().take(rw.len() - j));
            }
            stack.push(t);
        }
        assert(rw.reverse().take(rw.len() as int) =~= rw.reverse());
        if quoted {
            let m = marker(true);
            proof {
                lemma_toks_push(stack@, m);
            }
            stack.push(m);
        }
        std::mem::swap(&mut stack, &mut self.stack);
        assert(toks_view(self.result@) == toks_view(old_result).take(keep as int));
        true
    }
}

impl Rewriter {
    /// Records the template `term` under `name`, replacing any earlier one.
    fn define(&mut self, name: Vec<char>, term: TermBody)
        requires
            old(self).wf(),
        ensures
            final(self).wf(),
            final(self).view() == (RewriteState {
                terms: old(self).view().terms.insert(name@, term@),
                ..old(self).view()
            }),
    {
        let ghost key = name@;
        let ghost value = term@;
        proof {
            reveal(table_wf);
        }
        match find_term(&self.names, name.as_slice()) {
            Some(i) => {
                self.bodies.set(i, term);
                proof {
                    self.terms@ = self.terms@.insert(key, value);
                    assert forall|k: Seq<char>| #[trigger] self.terms@.contains_key(k) <==> exists|j: int|
                        0 <= j < self.names@.len() && #[trigger] self.names@[j]@ == k by {
                        if k == key {
                            assert(self.names@[i as int]@ == k);
                        }
                    }
                }
            },
            None => {
                self.names.push(name);
                self.bodies.push(term);
                proof {
                    let n = self.names@.len() - 1;
                    self.terms@ = self.terms@.insert(key, value);
                    assert forall|k: Seq<char>| #[trigger] self.terms@.contains_key(k) <==> exists|j: int|
                        0 <= j < self.names@.len() && #[trigger] self.names@[j]@ == k by {
                        if k == key {
                            assert(self.names@[n]@ == k);
                        } else if old(self).terms@.contains_key(k) {
                            let j = choose|j: int| 0 <= j < old(self).names@.len() && #[trigger] old(self).names@[j]@ == k;
                            assert(self.names@[j]@ == k);
                        }
                    }
                    assert forall|a: int, b: int| 0 <= a < b < self.names@.len() implies #[trigger] self.names@[a]@ != #[trigger] self.names@[b]@ by {
                        if b == n {
                            assert(old(self).names@[a]@ != key);
                        }
                    }
                }
            },
        }
    }

    /// Processes the op on top of the stack. Fails where a template has more
    /// holes than it was given.
    fn step(&mut self) -> (ok: bool)
        requires
            old(self).wf(),
            old(self).view().stack.len() > 0,
        ensures
            ok == (spec_step(old(self).view()) is Some),
            ok ==> final(self).wf() && final(self).view() == spec_step(old(self).view())->Some_0,
    {
        let ghost pre = self.view();
        proof {
            lemma_toks_drop_last(self.stack@);
        }
        let stmt = self.stack.pop().unwrap();
        assert(self.view() == (RewriteState { stack: pre.stack.drop_last(), ..pre }));
        let ghost op = stmt@.1;
        proof {
            reveal(table_wf);
        }
        match find_term(&self.names, stmt.op.as_slice()) {
            Some(i) => {
                assert(self.terms@.contains_key(op));
                if self.new_term.is_some() {
                    self.collect(stmt);
                    return true;
                }
                return self.expand(i, stmt, Ghost(pre));
            },
            None => {
                assert(!self.terms@.contains_key(op)) by {
                    if self.terms@.contains_key(op) {
                        let j = choose|j: int| 0 <= j < self.names@.len() && #[trigger] self.names@[j]@ == op;
                        assert(self.names@[j]@ != op);
                    }
                }
            },
        }
        let n = stmt.op.len();
        if n > 0 && stmt.op[0] == '[' {
            self.step_open(stmt, Ghost(pre));
            return true;
        }
        if n == 1 && stmt.op[0] == ']' {
            assert(op =~= seq![']']);
            self.step_close(stmt, Ghost(pre));
            return true;
        }
        if n > 0 && stmt.op[n - 1] == ']' && !contains_char(stmt.op.as_slice(), ':') {
            self.step_close_token(stmt, Ghost(pre));
            return true;
        }
        self.step_plain(stmt, Ghost(pre));
        true
    }

    fn step_open(&mut self, stmt: Tok, Ghost(pre): Ghost<RewriteState>)
        requires
            old(self).wf(),
            pre.stack.len() > 0,
            pre.stack.last() == stmt@,
            old(self).view() == (RewriteState { stack: pre.stack.drop_last(), ..pre }),
            !pre.terms.contains_key(stmt@.1),
            opens_group(stmt@.1),
        ensures
            final(self).wf(),
            spec_step(pre) == Some(final(self).view()),
    {
        let ghost op = stmt@.1;
        let n = stmt.op.len();
        if self.new_term.is_some() {
            let ghost before = self.view();
            self.collect(stmt);
            let l = match &self.new_term {
                Some(t) => t.ops.len(),
                None => 0,
            };
            assert(l == self.view().new_term->Some_0.ops.len());
            assert(self.depth <= before.new_term->Some_0.ops.len());
            self.depth = self.depth + 1;
        } else {
            let mut token: Vec<char> = Vec::with_capacity(n - 1);
            let mut k: usize = 1;
            while k < n
                invariant
                    1 <= k <= n,
                    n == stmt.op@.len(),
                    token@ == stmt.op@.subrange(1, k as int),
                decreases n - k,
            {
                token.push(stmt.op[k]);
                k = k + 1;
                assert(token@ =~= stmt.op@.subrange(1, k as int));
            }
            assert(token@ =~= op.drop_first());
            if token.len() > 0 {
                let t = Tok { id: stmt.id, op: token };
                proof {
                    lemma_toks_push(self.stack@, t);
                }
                self.stack.push(t);
            }
            self.new_term = Some(TermBody { holes: 0, ops: Vec::new() });
            self.depth = 0;
            assert(toks_view(Seq::<Tok>::empty()) =~= Seq::<OpView>::empty());
        }
    }

    fn step_close(&mut self, stmt: Tok, Ghost(pre): Ghost<RewriteState>)
        requires
            old(self).wf(),
            pre.stack.len() > 0,
            pre.stack.last() == stmt@,
            old(self).view() == (RewriteState { stack: pre.stack.drop_last(), ..pre }),
            !pre.terms.contains_key(stmt@.1),
            is_group_close(stmt@.1),
        ensures
            final(self).wf(),
            spec_step(pre) == Some(final(self).view()),
    {
        let ghost op = stmt@.1;
        let n = stmt.op.len();
        assert(op =~= seq![']']);
        if self.depth > 0 {
            if self.new_term.is_some() {
                self.collect(stmt);
            }
            self.depth = self.depth - 1;
            return;
        }
        let mut taken: Option<TermBody> = None;
        std::mem::swap(&mut taken, &mut self.new_term);
        match taken {
            None => {},
            Some(term) => {
                if self.stack.len() > 0 {
                    proof {
                        lemma_toks_drop_last(self.stack@);
                    }
                    let ghost popped = self.stack@;
                    let next = self.stack.pop().unwrap();
                    if quotation_consumer(next.op.as_slice()) {
                        proof {
                            lemma_toks_push(self.stack@, next);
                            assert(popped.drop_last().push(next) =~= popped);
                        }
                        self.stack.push(next);
                        let m = marker(false);
                        proof {
                            lemma_toks_push(self.stack@, m);
                        }
                        self.stack.push(m);
                        let mut stack: Vec<Tok> = Vec::new();
                        std::mem::swap(&mut stack, &mut self.stack);
                        let ghost s1 = toks_view(stack@);
                        let ghost body = toks_view(term.ops@);
                        let mut ops = term.ops;
                        assert(body.reverse().take(0) =~= Seq::<OpView>::empty());
                        assert(s1 + Seq::<OpView>::empty() =~= s1);
                        while ops.len() > 0
                            invariant
                                ops@.len() <= body.len(),
                                toks_view(ops@) == body.take(ops@.len() as int),
                                toks_view(stack@) == s1 + body.reverse().take(body.len() - ops@.len()),
                            decreases ops@.len(),
                        {
                            let ghost before = ops@;
                            let j = ops.len() - 1;
                            let t = ops.pop().unwrap();
                            proof {
                                lemma_toks_drop_last(before);
                                assert(t@ == body[j as int]);
                                lemma_toks_push(stack@, t);
                                assert(body.take(j + 1).drop_last() =~= body.take(j as int));
                                assert((s1 + body.reverse().take(body.len() - j - 1)).push(t@) =~= s1 + body.reverse().take(body.len() - j));
                            }
                            stack.push(t);
                        }
                        assert(body.reverse().take(body.len() as int) =~= body.reverse());
                        let m = marker(true);
                        proof {
                            lemma_toks_push(stack@, m);
                        }
                        stack.push(m);
                        std::mem::swap(&mut stack, &mut self.stack);
                    } else {
                        self.define(next.op, term);
                    }
                }
            },
        }
    }

    fn step_close_token(&mut self, stmt: Tok, Ghost(pre): Ghost<RewriteState>)
        requires
            old(self).wf(),
            pre.stack.len() > 0,
            pre.stack.last() == stmt@,
            old(self).view() == (RewriteState { stack: pre.stack.drop_last(), ..pre }),
            !pre.terms.contains_key(stmt@.1),
            closes_group(stmt@.1),
            !is_group_close(stmt@.1),
            !opens_group(stmt@.1),
        ensures
            final(self).wf(),
            spec_step(pre) == Some(final(self).view()),
    {
        let ghost op = stmt@.1;
        let n = stmt.op.len();
        if self.new_term.is_some() {
            let mut close: Vec<char> = Vec::new();
            close.push(']');
            let c = Tok { id: 0, op: close };
            assert(c@.1 =~= seq![']']);
            proof {
                lemma_toks_push(self.stack@, c);
            }
            self.stack.push(c);
            let mut stripped: Vec<char> = Vec::with_capacity(n - 1);
            let mut k: usize = 0;
            while k + 1 < n
                invariant
                    k + 1 <= n,
                    n == stmt.op@.len(),
                    stripped@ == stmt.op@.take(k as int),
                decreases n - k,
            {
                stripped.push(stmt.op[k]);
                k = k + 1;
                assert(stripped@ =~= stmt.op@.take(k as int));
            }
            assert(stripped@ =~= strip_close(op));
            let t = Tok { id: stmt.id, op: stripped };
            proof {
                lemma_toks_push(self.stack@, t);
            }
            self.stack.push(t);
        }
    }

    fn step_plain(&mut self, stmt: Tok, Ghost(pre): Ghost<RewriteState>)
        requires
            old(self).wf(),
            pre.stack.len() > 0,
            pre.stack.last() == stmt@,
            old(self).view() == (RewriteState { stack: pre.stack.drop_last(), ..pre }),
            !pre.terms.contains_key(stmt@.1),
            !closes_group(stmt@.1),
            !is_group_close(stmt@.1),
            !opens_group(stmt@.1),
        ensures
            final(self).wf(),
            spec_step(pre) == Some(final(self).view()),
    {
        let ghost op = stmt@.1;
        let n = stmt.op.len();
        let hole = contains_char(stmt.op.as_slice(), '?');
        let mut taken: Option<TermBody> = None;
        std::mem::swap(&mut taken, &mut self.new_term);
        match taken {
            Some(mut t) => {
                assert(t.holes <= t.ops@.len());
                proof {
                    lemma_toks_push(t.ops@, stmt);
                }
                t.ops.push(stmt);
                let _ = t.ops.len();
                if hole {
                    t.holes = t.holes + 1;
                }
                self.new_term = Some(t);
            },
            None => {
                proof {
                    lemma_toks_push(self.result@, stmt);
                }
                self.result.push(stmt);
            },
        }
    }

}

impl Rewriter {
    /// The ops written out, as text ops.
    fn into_result(self) -> (r: Vec<TextOp>)
        ensures
            ops_view(r@) == self.view().result,
    {
        let mut out: Vec<TextOp> = Vec::with_capacity(self.result.len());
        let mut i: usize = 0;
        while i < self.result.len()
            invariant
                i <= self.result@.len(),
                ops_view(out@) == toks_view(self.result@).take(i as int),
            decreases self.result@.len() - i,
        {
            let t = &self.result[i];
            let op = TextOp { id: t.id, op: string_of(t.op.as_slice()) };
            assert(op@ == toks_view(self.result@)[i as int]);
            assert(ops_view(out@.push(op)) =~= ops_view(out@).push(op@));
            assert(toks_view(self.result@).take(i as int).push(op@) =~= toks_view(self.result@).take(i + 1));
            out.push(op);
            i = i + 1;
            assert(ops_view(out@) =~= toks_view(self.result@).take(i as int));
        }
        assert(toks_view(self.result@).take(i as int) =~= toks_view(self.result@));
        out
    }
}

/// Rewrites the program text before it is compiled: drops comments,
/// collects templates (`[ .. ] name`) and expands every later use of a
/// template name, filling its holes (`?`) with the ops written out just
/// before the use and salting the ids of its other ops with the id of the
/// use, and turns bracket groups before `poly` into marked quotations.
///
/// The rewriter does not stop on a template that expands to itself, and it
/// fails on a template with more holes than it collected: those inputs are
/// left out; `rewrite_terms_within` takes every input.
pub fn rewrite_terms(stmts: &[TextOp]) -> (r: Vec<TextOp>)
    requires
        rewrite_halts(ops_view(stmts@)),
    ensures
        ops_view(r@) == spec_rewrite_terms(ops_view(stmts@)),
{
    let ghost s = ops_view(stmts@);
    let ghost fuel_total = choose|fuel: nat| halts_within(s, fuel);
    let ghost last = spec_run(spec_initial_state(s), fuel_total)->Some_0;
    let mut rw = Rewriter::new(stmts);
    let ghost mut fuel: nat = fuel_total;
    while rw.stack.len() > 0
        invariant
            rw.wf(),
            spec_run(rw.view(), fuel) == Some(last),
            last.stack.len() == 0,
        decreases fuel,
    {
        proof {
            lemma_toks_drop_last(rw.stack@);
        }
        let ok = rw.step();
        proof {
            fuel = (fuel - 1) as nat;
        }
    }
    proof {
        lemma_halting_state_unique(s, fuel_total);
    }
    rw.into_result()
}

/// Rewrites like `rewrite_terms`, giving up after `max_steps` steps: `None`
/// unless the rewriter processes every op within that many steps without
/// failing.
pub fn rewrite_terms_within(stmts: &[TextOp], max_steps: u64) -> (r: Option<Vec<TextOp>>)
    ensures
        r is Some <==> halts_within(ops_view(stmts@), max_steps as nat),
        r matches Some(v) ==> ops_view(v@) == spec_run(
            spec_initial_state(ops_view(stmts@)),
            max_steps as nat,
        )->Some_0.result,
{
    let ghost s = ops_view(stmts@);
    let mut rw = Rewriter::new(stmts);
    let mut steps: u64 = 0;
    while steps < max_steps && rw.stack.len() > 0
        invariant
            rw.wf(),
            s == ops_view(stmts@),
            steps <= max_steps,
            spec_run(spec_initial_state(s), max_steps as nat) == spec_run(
                rw.view(),
                (max_steps - steps) as nat,
            ),
        decreases max_steps - steps,
    {
        proof {
            lemma_toks_drop_last(rw.stack@);
        }
        let ghost before = rw.view();
        if !rw.step() {
            assert(spec_run(before, (max_steps - steps) as nat) is None);
            assert(spec_run(spec_initial_state(s), max_steps as nat) is None);
            assert(!halts_within(s, max_steps as nat));
            return None;
        }
        steps = steps + 1;
    }
    if rw.stack.len() > 0 {
        proof {
            lemma_toks_drop_last(rw.stack@);
        }
        return None;
    }
    Some(rw.into_result())
}

/// Whether the op takes the quotation before it: `poly` and `poly:..`.
pub fn is_quotation_consumer(op: &str) -> (r: bool)
    ensures
        r == spec_is_quotation_consumer(op@),
{
    let chars = chars_of(op);
    quotation_consumer(chars.as_slice())
}

/// What compiling a program does with a stretch of its ops.
#[derive(Clone, Copy, Debug, PartialEq, Eq, Structural)]
pub enum Piece {
    /// Ops `start..end`, compiled one after another.
    Segment(usize, usize),
    /// The quotation `start..end`, compiled as the body of the op at
    /// `consumer` (`poly:N`) that takes it.
    Quotation(usize, usize, usize),
}

/// Where the quotation whose body starts at `j` closes, at nesting `depth`
/// below it; `None` when it does not.
pub open spec fn find_close(ops: Seq<OpView>, j: int, depth: nat) -> Option<int>
    decreases ops.len() - j,
{
    if j < 0 || j >= ops.len() {
        None
    } else if ops[j].1 == quote_open() {
        find_close(ops, j + 1, depth + 1)
    } else if ops[j].1 == quote_close() {
        if depth == 0 {
            Some(j)
        } else {
            find_close(ops, j + 1, (depth - 1) as nat)
        }
    } else {
        find_close(ops, j + 1, depth)
    }
}

/// A quotation closes at a closing marker at or after where its body starts.
pub proof fn lemma_find_close(ops: Seq<OpView>, j: int, depth: nat)
    requires
        0 <= j,
    ensures
        find_close(ops, j, depth) matches Some(c) ==> j <= c < ops.len() && ops[c].1 == quote_close(),
    decreases ops.len() - j,
{
    if j < ops.len() {
        if ops[j].1 == quote_open() {
            lemma_find_close(ops, j + 1, depth + 1);
        } else if ops[j].1 == quote_close() {
            if depth > 0 {
                lemma_find_close(ops, j + 1, (depth - 1) as nat);
            }
        } else {
            lemma_find_close(ops, j + 1, depth);
        }
    }
}

/// The pieces of the ops from `i` on, the current segment starting at
/// `seg`: each quotation ends the segment before it; a quotation followed
/// by `poly` or `poly:..` is that op's body, any other is skipped, and an
/// opening marker that never closes is skipped alone.
pub open spec fn plan_from(ops: Seq<OpView>, seg: int, i: int) -> Seq<Piece>
    decreases ops.len() - i,
{
    if i < 0 || i >= ops.len() {
        seq![Piece::Segment(seg as usize, ops.len() as usize)]
    } else if ops[i].1 != quote_open() {
        plan_from(ops, seg, i + 1)
    } else {
        seq![Piece::Segment(seg as usize, i as usize)] + match find_close(ops, i + 1, 0) {
            None => plan_from(ops, i + 1, i + 1),
            Some(c) => {
                proof {
                    lemma_find_close(ops, i + 1, 0);
                }
                if c + 1 < ops.len() && spec_is_quotation_consumer(ops[c + 1].1) {
                    seq![Piece::Quotation((i + 1) as usize, c as usize, (c + 1) as usize)] + plan_from(ops, c + 2, c + 2)
                } else {
                    plan_from(ops, c + 1, c + 1)
                }
            },
        }
    }
}

/// Whether `op` is the opening (or closing) quotation marker.
fn is_marker(op: &str, open: bool) -> (r: bool)
    ensures
        r == (op@ == (if open {
            quote_open()
        } else {
            quote_close()
        })),
{
    let c = chars_of(op);
    let r = c.len() == 2 && c[0] == '\u{1}' && c[1] == (if open {
        '('
    } else {
        ')'
    });
    proof {
        let m = if open {
            quote_open()
        } else {
            quote_close()
        };
        if r {
            assert(c@ =~= m);
        }
        if c@ == m {
            assert(c@[1] == m[1]);
        }
    }
    r
}

/// The quotation body starting at `from` closes at the result.
fn matching_close(ops: &[TextOp], from: usize) -> (r: Option<usize>)
    requires
        from <= ops@.len(),
    ensures
        r matches Some(c) ==> find_close(ops_view(ops@), from as int, 0) == Some(c as int),
        r is None ==> find_close(ops_view(ops@), from as int, 0) is None,
{
    let ghost v = ops_view(ops@);
    let mut depth: usize = 0;
    let mut j = from;
    while j < ops.len()
        invariant
            from <= j <= ops@.len(),
            v == ops_view(ops@),
            depth <= j - from,
            find_close(v, from as int, 0) == find_close(v, j as int, depth as nat),
        decreases ops@.len() - j,
    {
        assert(v[j as int] == ops@[j as int]@);
        if is_marker(ops[j].op.as_str(), true) {
            depth = depth + 1;
        } else if is_marker(ops[j].op.as_str(), false) {
            if depth == 0 {
                return Some(j);
            }
            depth = depth - 1;
        }
        j = j + 1;
    }
    None
}

/// How a program is compiled: its segments and quotations in order. A
/// segment that stops the program (`return`) ends the compilation there.
pub fn plan_program(ops: &[TextOp]) -> (r: Vec<Piece>)
    ensures
        r@ == plan_from(ops_view(ops@), 0, 0),
{
    let ghost v = ops_view(ops@);
    let mut out: Vec<Piece> = Vec::new();
    let mut seg: usize = 0;
    let mut i: usize = 0;
    while i < ops.len()
        invariant
            seg <= i <= ops@.len(),
            v == ops_view(ops@),
            plan_from(v, 0, 0) == out@ + plan_from(v, seg as int, i as int),
        decreases ops@.len() - i,
    {
        assert(v[i as int] == ops@[i as int]@);
        if !is_marker(ops[i].op.as_str(), true) {
            i = i + 1;
            continue;
        }
        let ghost before = out@;
        out.push(Piece::Segment(seg, i));
        match matching_close(ops, i + 1) {
            None => {
                assert(out@ + plan_from(v, i + 1, i + 1) =~= before + plan_from(v, seg as int, i as int));
                i = i + 1;
                seg = i;
            },
            Some(c) => {
                proof {
                    lemma_find_close(v, i + 1, 0);
                }
                if c + 1 < ops.len() && quotation_consumer(chars_of(ops[c + 1].op.as_str()).as_slice()) {
                    assert(v[c + 1] == ops@[c + 1]@);
                    out.push(Piece::Quotation(i + 1, c, c + 1));
                    assert(out@ + plan_from(v, c + 2, c + 2) =~= before + plan_from(v, seg as int, i as int));
                    i = c + 2;
                } else {
                    proof {
                        if c + 1 < ops@.len() {
                            assert(v[c + 1] == ops@[c + 1]@);
                        }
                    }
                    assert(out@ + plan_from(v, c + 1, c + 1) =~= before + plan_from(v, seg as int, i as int));
                    i = c + 1;
                }
                seg = i;
            },
        }
    }
    out.push(Piece::Segment(seg, ops.len()));
    assert(plan_from(v, seg as int, i as int) =~= seq![Piece::Segment(seg, ops@.len() as usize)]);
    out
}

/// The first position at or after `i` holding `c`, or the length.
pub open spec fn first_index(s: Seq<char>, c: char, i: int) -> int
    decreases s.len() - i,
{
    if i < 0 || i >= s.len() {
        s.len() as int
    } else if s[i] == c {
        i
    } else {
        first_index(s, c, i + 1)
    }
}

proof fn lemma_first_index(s: Seq<char>, c: char, i: int)
    requires
        0 <= i <= s.len(),
    ensures
        i <= first_index(s, c, i) <= s.len(),
        first_index(s, c, i) < s.len() ==> s[first_index(s, c, i)] == c,
        forall|k: int| i <= k < first_index(s, c, i) ==> s[k] != c,
    decreases s.len() - i,
{
    if i < s.len() && s[i] != c {
        lemma_first_index(s, c, i + 1);
    }
}

/// The voice count of `poly:N`: the text between the first `:` and the
/// next (or the end), read as an unsigned decimal with an optional `+`;
/// `None` when there is no `:`, the count is not such a number, or it is 0.
pub open spec fn spec_voice_count(op: Seq<char>) -> Option<usize> {
    let a = first_index(op, ':', 0);
    if a >= op.len() {
        None
    } else {
        let rest = op.skip(a + 1);
        let field = rest.take(first_index(rest, ':', 0));
        let digits = if field.len() > 0 && field[0] == '+' {
            field.drop_first()
        } else {
            field
        };
        positive_count(digits)
    }
}

/// A positive `usize` written with at least one decimal digit and nothing
/// else.
pub open spec fn positive_count(digits: Seq<char>) -> Option<usize> {
    if digits.len() == 0 || exists|i: int| 0 <= i < digits.len() && !is_digit(#[trigger] digits[i]) {
        None
    } else if decimal_value(digits) > usize::MAX || decimal_value(digits) == 0 {
        None
    } else {
        Some(decimal_value(digits) as usize)
    }
}

/// The voice count of a `poly:N` op.
pub fn voice_count(op: &str) -> (r: Option<usize>)
    ensures
        r == spec_voice_count(op@),
{
    let s = chars_of(op);
    let n = s.len();
    let mut a: usize = 0;
    proof {
        lemma_first_index(s@, ':', 0);
    }
    while a < n && s[a] != ':'
        invariant
            a <= n,
            n == s@.len(),
            first_index(s@, ':', 0) == first_index(s@, ':', a as int),
        decreases n - a,
    {
        a = a + 1;
    }
    if a >= n {
        return None;
    }
    let ghost rest = s@.skip(a + 1);
    let mut b: usize = a + 1;
    proof {
        lemma_first_index(rest, ':', 0);
    }
    while b < n && s[b] != ':'
        invariant
            a + 1 <= b <= n,
            n == s@.len(),
            rest == s@.skip(a + 1),
            first_index(rest, ':', 0) == first_index(rest, ':', b - (a + 1)),
        decreases n - b,
    {
        assert(rest[b - (a + 1)] == s@[b as int]);
        b = b + 1;
    }
    proof {
        if b < n {
            assert(rest[b - (a + 1)] == s@[b as int]);
        }
    }
    let ghost field = rest.take(first_index(rest, ':', 0));
    assert(field =~= s@.subrange(a + 1, b as int));
    let start = if a + 1 < b && s[a + 1] == '+' {
        a + 2
    } else {
        a + 1
    };
    let ghost digits = if field.len() > 0 && field[0] == '+' {
        field.drop_first()
    } else {
        field
    };
    assert(digits =~= s@.subrange(start as int, b as int));
    assert(spec_voice_count(op@) == positive_count(digits));
    if start == b {
        return None;
    }
    let mut acc: usize = 0;
    let mut i = start;
    assert(s@.subrange(start as int, start as int) =~= Seq::<char>::empty());
    while i < b
        invariant
            start <= i <= b,
            b <= n,
            n == s@.len(),
            digits == s@.subrange(start as int, b as int),
            spec_voice_count(op@) == positive_count(digits),
            forall|k: int| start <= k < i ==> is_digit(#[trigger] s@[k]),
            acc as int == decimal_value(s@.subrange(start as int, i as int)),
        decreases b - i,
    {
        let c = s[i];
        if !('0' <= c && c <= '9') {
            assert(digits[i - start] == c);
            return None;
        }
        let d = (c as u32 - '0' as u32) as usize;
        assert(s@.subrange(start as int, i + 1).drop_last() =~= s@.subrange(start as int, i as int));
        let next = match acc.checked_mul(10) {
            Some(m) => m.checked_add(d),
            None => None,
        };
        match next {
            Some(v) => {
                acc = v;
            },
            None => {
                proof {
                    if !exists|k: int| 0 <= k < digits.len() && !is_digit(#[trigger] digits[k]) {
                        assert(digits.take(i + 1 - start) =~= s@.subrange(start as int, i + 1));
                        crate::scale::lemma_decimal_bound(s@.subrange(start as int, i as int));
                        crate::scale::lemma_decimal_prefix(digits, (i + 1 - start) as nat);
                    }
                }
                return None;
            },
        }
        i = i + 1;
    }
    assert(s@.subrange(start as int, i as int) =~= digits);
    assert forall|k: int| 0 <= k < digits.len() implies is_digit(#[trigger] digits[k]) by {
        assert(digits[k] == s@[start + k]);
    }
    if acc == 0 {
        None
    } else {
        Some(acc)
    }
}

/// Whether a table written under a name takes over the table already kept
/// under that name, of length `existing` where there is one: only where that
/// length is the one asked for, so that what was recorded into it outlives a
/// reload of the program.
pub fn reuses_table(existing: Option<usize>, len: usize) -> (r: bool)
    ensures
        r == (existing == Some(len)),
{
    match existing {
        Some(n) => n == len,
        None => false,
    }
}

} // verus!
