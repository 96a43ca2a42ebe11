//! The collaborative text engine: the characters, the edges that order
//! them, the edits and the undone groups of a session, held in add/remove
//! sets that sessions share, and the text laid out from them.
use crate::crdt::{
    delta_order, gone, gone_chars, lemma_stable_order_unique, START_ID, END_ID, gone_values, stable_order, thread, thread_edges, CharId, Delta, Edit,
    SessionId, TextState, UndoGroupId, UndoHistory, ValueId, ValueOp,
};
use crate::linear::{lemma_laid_out_not_gone, linearize, linearized};
use crate::text::{chars_of, string_of};
use crdts::orswot::Op;
use crdts::{CmRDT, CvRDT, Orswot};
use std::collections::{HashMap, HashSet};
use std::hash::Hash;
use vstd::prelude::*;

verus! {

broadcast use vstd::std_specs::hash::group_hash_axioms;

#[verifier::external_type_specification]
#[verifier::external_body]
#[verifier::reject_recursive_types(M)]
#[verifier::reject_recursive_types(A)]
pub struct ExOrswot<M: Hash + Eq, A: Ord + Hash>(Orswot<M, A>);

#[verifier::external_type_specification]
#[verifier::external_body]
#[verifier::reject_recursive_types(M)]
#[verifier::reject_recursive_types(A)]
pub struct ExOrswotOp<M, A: Ord>(Op<M, A>);

/// The members of a set of characters, each with its id.
pub uninterp spec fn char_members(s: Orswot<(u64, char), u64>) -> Set<(u64, char)>;

/// The members of a set of edges between character ids.
pub uninterp spec fn edge_members(s: Orswot<(u64, u64), u64>) -> Set<(u64, u64)>;

/// The members of a set of edits.
pub uninterp spec fn edit_members(s: Orswot<Edit, u64>) -> Set<Edit>;

/// The members of a set of undone group ids.
pub uninterp spec fn undone_members(s: Orswot<u64, u64>) -> Set<u64>;

/// No remove waits in the set of characters for adds it has not seen.
pub uninterp spec fn chars_settled(s: Orswot<(u64, char), u64>) -> bool;

/// No remove waits in the set of edges for adds it has not seen.
pub uninterp spec fn edges_settled(s: Orswot<(u64, u64), u64>) -> bool;

/// No remove waits in the set of edits for adds it has not seen.
pub uninterp spec fn edits_settled(s: Orswot<Edit, u64>) -> bool;

/// No remove waits in the set of undone groups for adds it has not seen.
pub uninterp spec fn undone_settled(s: Orswot<u64, u64>) -> bool;

/// `Orswot::new` for characters: no members, no remove waiting, and an
/// empty clock, in which every counter reads 0.
#[verifier::external_body]
fn chars_new() -> (r: Orswot<(u64, char), u64>)
    ensures
        char_members(r) == Set::<(u64, char)>::empty(),
        chars_settled(r),
        forall|a: u64| #[trigger] chars_clock(r, a) == 0,
{
    Orswot::new()
}

/// `Orswot::new` for edges, as `chars_new`.
#[verifier::external_body]
fn edges_new() -> (r: Orswot<(u64, u64), u64>)
    ensures
        edge_members(r) == Set::<(u64, u64)>::empty(),
        edges_settled(r),
        forall|a: u64| #[trigger] edges_clock(r, a) == 0,
{
    Orswot::new()
}

/// `Orswot::new` for edits, as `chars_new`.
#[verifier::external_body]
fn edits_new() -> (r: Orswot<Edit, u64>)
    ensures
        edit_members(r) == Set::<Edit>::empty(),
        edits_settled(r),
        forall|a: u64| #[trigger] edits_clock(r, a) == 0,
{
    Orswot::new()
}

/// `Orswot::new` for undone groups, as `chars_new`.
#[verifier::external_body]
fn undone_new() -> (r: Orswot<u64, u64>)
    ensures
        undone_members(r) == Set::<u64>::empty(),
        undone_settled(r),
        forall|a: u64| #[trigger] undone_clock(r, a) == 0,
{
    Orswot::new()
}

/// The counter of `actor` in the clock of a set of chars.
pub uninterp spec fn chars_clock(s: Orswot<(u64, char), u64>, actor: u64) -> u64;

/// The members of a set of chars after the ops `ops` were applied to it in
/// order.
pub uninterp spec fn chars_after_ops(s: Orswot<(u64, char), u64>, ops: Seq<Op<(u64, char), u64>>) -> Set<(u64, char)>;

/// The members of a set of chars after another set was merged into it.
pub uninterp spec fn chars_after_merge(s: Orswot<(u64, char), u64>, other: Orswot<(u64, char), u64>) -> Set<(u64, char)>;

/// `Orswot::clock` and `VClock::get` on a set of chars: the counter of
/// `actor`.
#[verifier::external_body]
fn chars_counter(s: &Orswot<(u64, char), u64>, actor: u64) -> (r: u64)
    ensures
        r == chars_clock(*s, actor),
{
    s.clock().get(&actor)
}

/// `CmRDT::apply` of each op of another session, in order, to a set of
/// chars. An add raises the clock to its dot where that is higher, a
/// remove leaves the clock: no counter goes down.
#[verifier::external_body]
fn chars_apply(s: &mut Orswot<(u64, char), u64>, ops: Vec<Op<(u64, char), u64>>)
    ensures
        char_members(*final(s)) == chars_after_ops(*old(s), ops@),
        forall|a: u64| #[trigger] chars_clock(*final(s), a) >= chars_clock(*old(s), a),
{
    for op in ops {
        s.apply(op);
    }
}

/// `CvRDT::merge` of another session's set of chars. The clock becomes
/// the greater of the two at each actor.
#[verifier::external_body]
fn chars_merge(s: &mut Orswot<(u64, char), u64>, other: Orswot<(u64, char), u64>)
    ensures
        char_members(*final(s)) == chars_after_merge(*old(s), other),
        forall|a: u64|
            #[trigger] chars_clock(*final(s), a) == if chars_clock(*old(s), a) >= chars_clock(other, a) {
                chars_clock(*old(s), a)
            } else {
                chars_clock(other, a)
            },
{
    s.merge(other)
}

/// The counter of `actor` in the clock of a set of edges.
pub uninterp spec fn edges_clock(s: Orswot<(u64, u64), u64>, actor: u64) -> u64;

/// The members of a set of edges after the ops `ops` were applied to it in
/// order.
pub uninterp spec fn edges_after_ops(s: Orswot<(u64, u64), u64>, ops: Seq<Op<(u64, u64), u64>>) -> Set<(u64, u64)>;

/// The members of a set of edges after another set was merged into it.
pub uninterp spec fn edges_after_merge(s: Orswot<(u64, u64), u64>, other: Orswot<(u64, u64), u64>) -> Set<(u64, u64)>;

/// `Orswot::clock` and `VClock::get` on a set of edges: the counter of
/// `actor`.
#[verifier::external_body]
fn edges_counter(s: &Orswot<(u64, u64), u64>, actor: u64) -> (r: u64)
    ensures
        r == edges_clock(*s, actor),
{
    s.clock().get(&actor)
}

/// `CmRDT::apply` of each op of another session, in order, to a set of
/// edges.
#[verifier::external_body]
fn edges_apply(s: &mut Orswot<(u64, u64), u64>, ops: Vec<Op<(u64, u64), u64>>)
    ensures
        edge_members(*final(s)) == edges_after_ops(*old(s), ops@),
        forall|a: u64| #[trigger] edges_clock(*final(s), a) >= edges_clock(*old(s), a),
{
    for op in ops {
        s.apply(op);
    }
}

/// `CvRDT::merge` of another session's set of edges.
#[verifier::external_body]
fn edges_merge(s: &mut Orswot<(u64, u64), u64>, other: Orswot<(u64, u64), u64>)
    ensures
        edge_members(*final(s)) == edges_after_merge(*old(s), other),
        forall|a: u64|
            #[trigger] edges_clock(*final(s), a) == if edges_clock(*old(s), a) >= edges_clock(other, a) {
                edges_clock(*old(s), a)
            } else {
                edges_clock(other, a)
            },
{
    s.merge(other)
}

/// The counter of `actor` in the clock of a set of edits.
pub uninterp spec fn edits_clock(s: Orswot<Edit, u64>, actor: u64) -> u64;

/// The members of a set of edits after the ops `ops` were applied to it in
/// order.
pub uninterp spec fn edits_after_ops(s: Orswot<Edit, u64>, ops: Seq<Op<Edit, u64>>) -> Set<Edit>;

/// The members of a set of edits after another set was merged into it.
pub uninterp spec fn edits_after_merge(s: Orswot<Edit, u64>, other: Orswot<Edit, u64>) -> Set<Edit>;

/// `Orswot::clock` and `VClock::get` on a set of edits: the counter of
/// `actor`.
#[verifier::external_body]
fn edits_counter(s: &Orswot<Edit, u64>, actor: u64) -> (r: u64)
    ensures
        r == edits_clock(*s, actor),
{
    s.clock().get(&actor)
}

/// `CmRDT::apply` of each op of another session, in order, to a set of
/// edits.
#[verifier::external_body]
fn edits_apply(s: &mut Orswot<Edit, u64>, ops: Vec<Op<Edit, u64>>)
    ensures
        edit_members(*final(s)) == edits_after_ops(*old(s), ops@),
        forall|a: u64| #[trigger] edits_clock(*final(s), a) >= edits_clock(*old(s), a),
{
    for op in ops {
        s.apply(op);
    }
}

/// `CvRDT::merge` of another session's set of edits.
#[verifier::external_body]
fn edits_merge(s: &mut Orswot<Edit, u64>, other: Orswot<Edit, u64>)
    ensures
        edit_members(*final(s)) == edits_after_merge(*old(s), other),
        forall|a: u64|
            #[trigger] edits_clock(*final(s), a) == if edits_clock(*old(s), a) >= edits_clock(other, a) {
                edits_clock(*old(s), a)
            } else {
                edits_clock(other, a)
            },
{
    s.merge(other)
}

/// The counter of `actor` in the clock of a set of undone.
pub uninterp spec fn undone_clock(s: Orswot<u64, u64>, actor: u64) -> u64;

/// The members of a set of undone after the ops `ops` were applied to it in
/// order.
pub uninterp spec fn undone_after_ops(s: Orswot<u64, u64>, ops: Seq<Op<u64, u64>>) -> Set<u64>;

/// The members of a set of undone after another set was merged into it.
pub uninterp spec fn undone_after_merge(s: Orswot<u64, u64>, other: Orswot<u64, u64>) -> Set<u64>;

/// `Orswot::clock` and `VClock::get` on a set of undone: the counter of
/// `actor`.
#[verifier::external_body]
fn undone_counter(s: &Orswot<u64, u64>, actor: u64) -> (r: u64)
    ensures
        r == undone_clock(*s, actor),
{
    s.clock().get(&actor)
}

/// `CmRDT::apply` of each op of another session, in order, to a set of
/// undone.
#[verifier::external_body]
fn undone_apply(s: &mut Orswot<u64, u64>, ops: Vec<Op<u64, u64>>)
    ensures
        undone_members(*final(s)) == undone_after_ops(*old(s), ops@),
        forall|a: u64| #[trigger] undone_clock(*final(s), a) >= undone_clock(*old(s), a),
{
    for op in ops {
        s.apply(op);
    }
}

/// `CvRDT::merge` of another session's set of undone.
#[verifier::external_body]
fn undone_merge(s: &mut Orswot<u64, u64>, other: Orswot<u64, u64>)
    ensures
        undone_members(*final(s)) == undone_after_merge(*old(s), other),
        forall|a: u64|
            #[trigger] undone_clock(*final(s), a) == if undone_clock(*old(s), a) >= undone_clock(other, a) {
                undone_clock(*old(s), a)
            } else {
                undone_clock(other, a)
            },
{
    s.merge(other)
}

/// `Orswot::add` with an add context derived from `read` for `actor`, then
/// `CmRDT::apply` of the op, which is returned. The op's dot is new to the
/// set, so the member goes in. Removes that were waiting in the set for
/// adds they had not seen are then applied, and may take members out: so
/// only where none waits does the set become exactly the old one with the
/// member, none waiting still; in any case nothing but the member comes
/// in. The actor's counter goes up by one; at `u64::MAX` it would overflow,
/// and the add is not made.
#[verifier::external_body]
fn chars_add(s: &mut Orswot<(u64, char), u64>, member: (u64, char), actor: u64) -> (op: Op<(u64, char), u64>)
    requires
        chars_clock(*old(s), actor) < u64::MAX,
    ensures
        char_members(*final(s)).subset_of(char_members(*old(s)).insert(member)),
        chars_clock(*final(s), actor) == chars_clock(*old(s), actor) + 1,
        chars_settled(*old(s)) ==> char_members(*final(s)) == char_members(*old(s)).insert(member) && chars_settled(*final(s)),
{
    let op = s.add(member, s.read().derive_add_ctx(actor));
    s.apply(op.clone());
    op
}

/// `Orswot::add` and `CmRDT::apply` on a set of edges, as `chars_add`.
#[verifier::external_body]
fn edges_add(s: &mut Orswot<(u64, u64), u64>, member: (u64, u64), actor: u64) -> (op: Op<(u64, u64), u64>)
    requires
        edges_clock(*old(s), actor) < u64::MAX,
    ensures
        edge_members(*final(s)).subset_of(edge_members(*old(s)).insert(member)),
        edges_clock(*final(s), actor) == edges_clock(*old(s), actor) + 1,
        edges_settled(*old(s)) ==> edge_members(*final(s)) == edge_members(*old(s)).insert(member) && edges_settled(*final(s)),
{
    let op = s.add(member, s.read().derive_add_ctx(actor));
    s.apply(op.clone());
    op
}

/// `Orswot::add` and `CmRDT::apply` on a set of edits, as `chars_add`.
#[verifier::external_body]
fn edits_add(s: &mut Orswot<Edit, u64>, member: Edit, actor: u64) -> (op: Op<Edit, u64>)
    requires
        edits_clock(*old(s), actor) < u64::MAX,
    ensures
        edit_members(*final(s)).subset_of(edit_members(*old(s)).insert(member)),
        edits_clock(*final(s), actor) == edits_clock(*old(s), actor) + 1,
        edits_settled(*old(s)) ==> edit_members(*final(s)) == edit_members(*old(s)).insert(member) && edits_settled(*final(s)),
{
    let op = s.add(member, s.read().derive_add_ctx(actor));
    s.apply(op.clone());
    op
}

/// `Orswot::add` and `CmRDT::apply` on a set of undone groups, as
/// `chars_add`.
#[verifier::external_body]
fn undone_add(s: &mut Orswot<u64, u64>, member: u64, actor: u64) -> (op: Op<u64, u64>)
    requires
        undone_clock(*old(s), actor) < u64::MAX,
    ensures
        undone_members(*final(s)).subset_of(undone_members(*old(s)).insert(member)),
        undone_clock(*final(s), actor) == undone_clock(*old(s), actor) + 1,
        undone_settled(*old(s)) ==> undone_members(*final(s)) == undone_members(*old(s)).insert(member) && undone_settled(*final(s)),
{
    let op = s.add(member, s.read().derive_add_ctx(actor));
    s.apply(op.clone());
    op
}

/// `Orswot::rm` with a remove context derived from `read`, then
/// `CmRDT::apply` of the op, which is returned. The context is the set's own
/// clock, so every dot of the member is covered and the member goes out;
/// the remove is not kept waiting, no other member changes, and no remove
/// waiting before is applied.
#[verifier::external_body]
fn undone_rm(s: &mut Orswot<u64, u64>, member: u64) -> (op: Op<u64, u64>)
    ensures
        undone_members(*final(s)) == undone_members(*old(s)).remove(member),
        undone_settled(*final(s)) == undone_settled(*old(s)),
        forall|a: u64| undone_clock(*final(s), a) == undone_clock(*old(s), a),
{
    let op = s.rm(member, s.read().derive_rm_ctx());
    s.apply(op.clone());
    op
}

/// `Orswot::read` on a set of characters: its members, each once, in the
/// order its hash map gives them.
#[verifier::external_body]
fn chars_read(s: &Orswot<(u64, char), u64>) -> (r: Vec<(u64, char)>)
    ensures
        r@.to_set() == char_members(*s),
        r@.no_duplicates(),
{
    s.read().val.into_iter().collect()
}

/// `Orswot::read` on a set of edges, as `chars_read`.
#[verifier::external_body]
fn edges_read(s: &Orswot<(u64, u64), u64>) -> (r: Vec<(u64, u64)>)
    ensures
        r@.to_set() == edge_members(*s),
        r@.no_duplicates(),
{
    s.read().val.into_iter().collect()
}

/// `Orswot::read` on a set of edits, as `chars_read`.
#[verifier::external_body]
fn edits_read(s: &Orswot<Edit, u64>) -> (r: Vec<Edit>)
    ensures
        r@.to_set() == edit_members(*s),
        r@.no_duplicates(),
{
    s.read().val.into_iter().collect()
}

/// `Orswot::read` on a set of undone groups, as `chars_read`.
#[verifier::external_body]
fn undone_read(s: &Orswot<u64, u64>) -> (r: Vec<u64>)
    ensures
        r@.to_set() == undone_members(*s),
        r@.no_duplicates(),
{
    s.read().val.into_iter().collect()
}

/// The key by which an edit orders its deltas: the start of a text delta's
/// range, 0 for a change to the meta data.
pub open spec fn delta_key<K, V>(d: Delta<K, V>) -> usize {
    match d {
        Delta::Text { range, .. } => range.0,
        Delta::Value { .. } => 0,
    }
}

/// The key of each delta.
pub open spec fn delta_keys<K, V>(deltas: Seq<Delta<K, V>>) -> Seq<usize> {
    deltas.map_values(|d: Delta<K, V>| delta_key(d))
}

/// The text after the text deltas of `deltas` were applied to `chars` in
/// the order `order`, each range moved by `shift`, the change of length
/// that the deltas before it made. `None` where a moved range falls
/// outside the text, or the shift leaves the `isize` range.
pub open spec fn text_deltas_applied<K, V>(
    chars: Seq<char>,
    shift: int,
    deltas: Seq<Delta<K, V>>,
    order: Seq<usize>,
) -> Option<Seq<char>>
    decreases order.len(),
{
    if order.len() == 0 {
        Some(chars)
    } else {
        match deltas[order[0] as int] {
            Delta::Text { range, new_text, .. } => {
                let start = range.0 + shift;
                let end = range.1 + shift;
                let next = shift + new_text@.len() - (range.1 - range.0);
                if 0 <= start <= end <= chars.len() && isize::MIN <= next <= isize::MAX {
                    text_deltas_applied(
                        chars.take(start) + new_text@ + chars.skip(end),
                        next,
                        deltas,
                        order.drop_first(),
                    )
                } else {
                    None
                }
            },
            Delta::Value { .. } => text_deltas_applied(chars, shift, deltas, order.drop_first()),
        }
    }
}

/// What an edit sends the other sessions: the ops that added its
/// characters, the edges between them and its edits.
pub struct TextPatch {
    pub chars: Vec<Op<(u64, char), u64>>,
    pub char_edges: Vec<Op<(u64, u64), u64>>,
    pub edits: Vec<Op<Edit, u64>>,
}

/// The shared sets of a session, its undo history and the text laid out
/// from the sets.
pub struct TextEngine {
    id: SessionId,
    chars: Orswot<(u64, char), u64>,
    char_edges: Orswot<(u64, u64), u64>,
    edits: Orswot<Edit, u64>,
    undone: Orswot<u64, u64>,
    history: UndoHistory,
    text: TextState,
}

/// The map from id to character that a list of characters gives, a later
/// pair winning over an earlier one with the same id.
pub open spec fn char_map(cs: Seq<(u64, char)>) -> Map<u64, char>
    decreases cs.len(),
{
    if cs.len() == 0 {
        Map::empty()
    } else {
        char_map(cs.drop_last()).insert(cs.last().0, cs.last().1)
    }
}

/// The character of `id` in the list, a space where it has none.
pub open spec fn char_of(cs: Seq<(u64, char)>, id: u64) -> char {
    if char_map(cs).contains_key(id) {
        char_map(cs)[id]
    } else {
        ' '
    }
}

/// The ids of the gone characters: those that the edits inserted in an
/// undone group, or deleted in a group that is not undone.
pub open spec fn gone_ids(edits: Seq<Edit>, undone: Seq<u64>) -> Set<u64> {
    let gc = gone_chars(edits, undone.map_values(|u: u64| UndoGroupId(u)));
    Set::new(|x: u64| exists|j: int| 0 <= j < gc.len() && gc[j].0 == x)
}

/// The ids, in order, of the text laid out from the characters `cs`, the
/// edges `es`, the edits `eds` and the undone groups `us`.
pub open spec fn laid_out_ids(cs: Seq<(u64, char)>, es: Seq<(u64, u64)>, eds: Seq<Edit>, us: Seq<u64>) -> Seq<u64> {
    linearized(cs.map_values(|c: (u64, char)| c.0), es, gone_ids(eds, us))
}

/// `ids` and `chars` are the text laid out from the characters `cs`, the
/// edges `es`, the edits `eds` and the undone groups `us`.
pub open spec fn laid_out(
    ids: Seq<CharId>,
    chars: Seq<char>,
    cs: Seq<(u64, char)>,
    es: Seq<(u64, u64)>,
    eds: Seq<Edit>,
    us: Seq<u64>,
) -> bool {
    &&& ids == laid_out_ids(cs, es, eds, us).map_values(|i: u64| CharId(i))
    &&& chars == laid_out_ids(cs, es, eds, us).map_values(|i: u64| char_of(cs, i))
}

impl TextEngine {
    /// The text has one id per character.
    pub closed spec fn wf(&self) -> bool {
        self.text.wf()
    }

    /// The characters of the text.
    pub closed spec fn chars(&self) -> Seq<char> {
        self.text.chars()
    }

    /// The id of each character of the text.
    pub closed spec fn ids(&self) -> Seq<CharId> {
        self.text.spec_ids()
    }

    /// The characters in the shared set, each with its id.
    pub closed spec fn char_set(&self) -> Set<(u64, char)> {
        char_members(self.chars)
    }

    /// The edges in the shared set.
    pub closed spec fn edge_set(&self) -> Set<(u64, u64)> {
        edge_members(self.char_edges)
    }

    /// The edits in the shared set.
    pub closed spec fn edit_set(&self) -> Set<Edit> {
        edit_members(self.edits)
    }

    /// The undone groups in the shared set.
    pub closed spec fn undone_set(&self) -> Set<u64> {
        undone_members(self.undone)
    }

    /// The undo history.
    pub closed spec fn undo_history(&self) -> UndoHistory {
        self.history
    }

    /// No remove waits in any of the shared sets for adds it has not seen:
    /// so it is for the sets of a new session while only its own edits,
    /// undos and redos change them.
    pub closed spec fn settled(&self) -> bool {
        &&& chars_settled(self.chars)
        &&& edges_settled(self.char_edges)
        &&& edits_settled(self.edits)
        &&& undone_settled(self.undone)
    }

    /// A session with no text, a fresh id, a history of one open group with
    /// color 0 and nothing to redo, and empty shared sets whose counters
    /// read 0.
    pub fn new() -> (r: Self)
        ensures
            r.wf(),
            r.chars() == Seq::<char>::empty(),
            r.ids() == Seq::<CharId>::empty(),
            r.settled(),
            r.char_set() == Set::<(u64, char)>::empty(),
            r.edge_set() == Set::<(u64, u64)>::empty(),
            r.edit_set() == Set::<Edit>::empty(),
            r.undone_set() == Set::<u64>::empty(),
            r.undo_history().undo_stack().len() == 1,
            r.undo_history().redo_stack().len() == 0,
            r.undo_history().color() == 0,
            r.char_count() == 0,
            r.edge_count() == 0,
            r.edit_count() == 0,
            r.undone_count() == 0,
    {
        TextEngine {
            id: SessionId::generate(),
            chars: chars_new(),
            char_edges: edges_new(),
            edits: edits_new(),
            undone: undone_new(),
            history: UndoHistory::new(),
            text: TextState::new(),
        }
    }

    /// The id of the session.
    pub fn session_id(&self) -> (r: SessionId)
        ensures
            r == self.session(),
    {
        self.id
    }

    /// The id of the session.
    pub closed spec fn session(&self) -> SessionId {
        self.id
    }

    /// The shared set of characters.
    pub closed spec fn char_orswot(&self) -> Orswot<(u64, char), u64> {
        self.chars
    }

    /// The shared set of edges.
    pub closed spec fn edge_orswot(&self) -> Orswot<(u64, u64), u64> {
        self.char_edges
    }

    /// The shared set of edits.
    pub closed spec fn edit_orswot(&self) -> Orswot<Edit, u64> {
        self.edits
    }

    /// The shared set of undone groups.
    pub closed spec fn undone_orswot(&self) -> Orswot<u64, u64> {
        self.undone
    }

    /// The counter of this session in the clock of each shared set: an add
    /// is made only while it is below `u64::MAX`.
    pub closed spec fn char_count(&self) -> u64 {
        chars_clock(self.chars, self.id.0)
    }

    pub closed spec fn edge_count(&self) -> u64 {
        edges_clock(self.char_edges, self.id.0)
    }

    pub closed spec fn edit_count(&self) -> u64 {
        edits_clock(self.edits, self.id.0)
    }

    pub closed spec fn undone_count(&self) -> u64 {
        undone_clock(self.undone, self.id.0)
    }

    /// The text and the id of each character.
    pub fn text(&self) -> (r: &TextState)
        ensures
            r.chars() == self.chars(),
            r.spec_ids() == self.ids(),
            r.wf() == self.wf(),
    {
        &self.text
    }

    /// Shares a non-empty edit, where this session's counter in the set of
    /// edits allows one more add.
    fn commit(&mut self, edit: Edit, ops: &mut Vec<Op<Edit, u64>>)
        ensures
            final(self).text == old(self).text,
            final(self).history == old(self).history,
            final(self).undone == old(self).undone,
            final(self).chars == old(self).chars,
            final(self).char_edges == old(self).char_edges,
            final(self).id == old(self).id,
            edits_clock(final(self).edits, final(self).id.0) == counted(
                edits_clock(old(self).edits, old(self).id.0),
                if edit_empty(edit) {
                    0
                } else {
                    1
                },
            ),
            edits_settled(old(self).edits) ==> edits_settled(final(self).edits),
            edit_empty(edit) ==> final(self).edits == old(self).edits && final(ops)@ == old(ops)@,
            !edit_empty(edit) && edits_settled(old(self).edits) && edits_clock(final(self).edits, final(self).id.0)
                < u64::MAX ==> edit_members(final(self).edits) == edit_members(old(self).edits).insert(edit)
                && final(ops)@.len() == old(ops)@.len() + 1,
    {
        if !edit.is_empty() {
            if edits_counter(&self.edits, self.id.0) < u64::MAX {
                let op = edits_add(&mut self.edits, edit, self.id.0);
                ops.push(op);
            }
        }
    }
}


/// A counter at `count` after `adds` more adds, each made while the counter
/// is below `u64::MAX`.
pub open spec fn counted(count: u64, adds: nat) -> u64 {
    if count + adds < u64::MAX {
        (count + adds) as u64
    } else {
        u64::MAX
    }
}

/// The greater of two counters.
pub open spec fn higher(a: u64, b: u64) -> u64 {
    if a >= b {
        a
    } else {
        b
    }
}

/// Counting adds in two runs is counting them in one.
proof fn lemma_counted_add(count: u64, x: nat, y: nat)
    ensures
        counted(counted(count, x), y) == counted(count, x + y),
{
}

/// Whether an edit changes nothing.
pub open spec fn edit_empty(e: Edit) -> bool {
    e.char_inserts@.len() == 0 && e.char_deletes@.len() == 0 && e.value_inserts@.len() == 0
        && e.value_deletes@.len() == 0
}

/// The ids put in by a run of edits, in order.
pub open spec fn recorded_inserts(es: Seq<Edit>) -> Seq<CharId>
    decreases es.len(),
{
    if es.len() == 0 {
        Seq::empty()
    } else {
        recorded_inserts(es.drop_last()) + es.last().char_inserts@
    }
}

/// The ids taken out by a run of edits, in order.
pub open spec fn recorded_deletes(es: Seq<Edit>) -> Seq<CharId>
    decreases es.len(),
{
    if es.len() == 0 {
        Seq::empty()
    } else {
        recorded_deletes(es.drop_last()) + es.last().char_deletes@
    }
}

/// The values added by a run of edits, in order.
pub open spec fn recorded_value_inserts(es: Seq<Edit>) -> Seq<ValueId>
    decreases es.len(),
{
    if es.len() == 0 {
        Seq::empty()
    } else {
        recorded_value_inserts(es.drop_last()) + es.last().value_inserts@
    }
}

/// The values taken out by a run of edits, in order.
pub open spec fn recorded_value_deletes(es: Seq<Edit>) -> Seq<ValueId>
    decreases es.len(),
{
    if es.len() == 0 {
        Seq::empty()
    } else {
        recorded_value_deletes(es.drop_last()) + es.last().value_deletes@
    }
}

/// The characters that ids put in, as members of the set of characters.
pub open spec fn pairs_of(ids: Seq<CharId>, chars: Seq<char>) -> Seq<(u64, char)> {
    Seq::new(ids.len(), |k: int| (ids[k].0, chars[k]))
}

/// Edges between character ids, as members of the set of edges.
pub open spec fn edge_ids(es: Seq<(CharId, CharId)>) -> Seq<(u64, u64)> {
    es.map_values(|e: (CharId, CharId)| (e.0.0, e.1.0))
}

/// What an edit has done after some of its deltas: the text, its ids, the
/// shift of the ranges, the characters and edges added to the shared sets,
/// the ids put in and taken out, and the values added and taken out.
pub type RunState = (
    Seq<char>,
    Seq<CharId>,
    int,
    Seq<(u64, char)>,
    Seq<(u64, u64)>,
    Seq<CharId>,
    Seq<CharId>,
    Seq<ValueId>,
    Seq<ValueId>,
    Seq<Contribution>,
);

/// What one delta gives the edits of its group: its color, the ids it puts
/// in and takes out, and the values it adds and takes out.
pub type Contribution = (u64, Seq<CharId>, Seq<CharId>, Seq<ValueId>, Seq<ValueId>);

/// Where an edit starts: the text and ids of the session, nothing added.
pub open spec fn run_start(chars: Seq<char>, ids: Seq<CharId>) -> RunState {
    (chars, ids, 0, Seq::empty(), Seq::empty(), Seq::empty(), Seq::empty(), Seq::empty(), Seq::empty(), Seq::empty())
}

/// One delta of an edit, a text delta putting in characters with the ids
/// `new_ids`, a change of meta data with the value id `vid`. `None` where a
/// text delta falls outside the text, its shift leaves `isize`, or the ids
/// do not match its characters.
pub open spec fn run_step<K, V>(st: RunState, d: Delta<K, V>, vid: Option<u64>, new_ids: Seq<CharId>) -> Option<
    RunState,
> {
    match d {
        Delta::Text { range, new_text, color } => {
            let start = range.0 + st.2;
            let end = range.1 + st.2;
            let next = st.2 + new_text@.len() - (range.1 - range.0);
            if 0 <= start <= end <= st.0.len() && st.0.len() == st.1.len() && isize::MIN <= next <= isize::MAX
                && new_ids.len() == new_text@.len() {
                let before = if start > 0 {
                    st.1[start - 1]
                } else {
                    CharId(START_ID)
                };
                let after = if end < st.1.len() {
                    st.1[end]
                } else {
                    CharId(END_ID)
                };
                Some(
                    (
                        st.0.take(start) + new_text@ + st.0.skip(end),
                        st.1.take(start) + new_ids + st.1.skip(end),
                        next,
                        st.3 + pairs_of(new_ids, new_text@),
                        st.4 + edge_ids(thread_edges(before, new_ids, after)),
                        st.5 + new_ids,
                        st.6 + st.1.subrange(start, end),
                        st.7,
                        st.8,
                        st.9.push((color, new_ids, st.1.subrange(start, end), Seq::empty(), Seq::empty())),
                    ),
                )
            } else {
                None
            }
        },
        Delta::Value { op, color } => match vid {
            Some(id) => match op {
                ValueOp::Assign(_, _) => Some(
                    (
                        st.0,
                        st.1,
                        st.2,
                        st.3,
                        st.4,
                        st.5,
                        st.6,
                        st.7.push(ValueId(id)),
                        st.8,
                        st.9.push((color, Seq::empty(), Seq::empty(), seq![ValueId(id)], Seq::empty())),
                    ),
                ),
                ValueOp::Remove(_) => Some(
                    (
                        st.0,
                        st.1,
                        st.2,
                        st.3,
                        st.4,
                        st.5,
                        st.6,
                        st.7,
                        st.8.push(ValueId(id)),
                        st.9.push((color, Seq::empty(), Seq::empty(), Seq::empty(), seq![ValueId(id)])),
                    ),
                ),
            },
            None => Some(
                (
                    st.0,
                    st.1,
                    st.2,
                    st.3,
                    st.4,
                    st.5,
                    st.6,
                    st.7,
                    st.8,
                    st.9.push((color, Seq::empty(), Seq::empty(), Seq::empty(), Seq::empty())),
                ),
            ),
        },
    }
}

/// The deltas of an edit applied in the order `order`, the `k`-th applied
/// one putting in characters with the ids `new_ids[k]`.
pub open spec fn edit_run<K, V>(
    st: RunState,
    deltas: Seq<Delta<K, V>>,
    vids: Seq<Option<u64>>,
    order: Seq<usize>,
    new_ids: Seq<Seq<CharId>>,
) -> Option<RunState>
    decreases order.len(),
{
    if order.len() != new_ids.len() {
        None
    } else if order.len() == 0 {
        Some(st)
    } else {
        match edit_run(st, deltas, vids, order.drop_last(), new_ids.drop_last()) {
            Some(s) => run_step(s, deltas[order.last() as int], vids[order.last() as int], new_ids.last()),
            None => None,
        }
    }
}

/// An edit as it is recorded: its group, the ids it puts in and takes out,
/// and the values it adds and takes out.
pub type EditRecord = (UndoGroupId, Seq<CharId>, Seq<CharId>, Seq<ValueId>, Seq<ValueId>);

/// The record of an edit.
pub open spec fn record_of(e: Edit) -> EditRecord {
    (e.undo_group, e.char_inserts@, e.char_deletes@, e.value_inserts@, e.value_deletes@)
}

/// A record of group `g` that holds nothing yet.
pub open spec fn empty_record(g: UndoGroupId) -> EditRecord {
    (g, Seq::empty(), Seq::empty(), Seq::empty(), Seq::empty())
}

/// Whether a record holds nothing.
pub open spec fn record_empty(r: EditRecord) -> bool {
    r.1.len() == 0 && r.2.len() == 0 && r.3.len() == 0 && r.4.len() == 0
}

/// The color of a delta.
pub open spec fn delta_color<K, V>(d: Delta<K, V>) -> u64 {
    match d {
        Delta::Text { color, .. } => color,
        Delta::Value { color, .. } => color,
    }
}

/// How the deltas of an edit fall into groups so far: the records closed,
/// the open record, the color of the last delta, and how many of the fresh
/// groups were opened.
pub struct Grouping {
    pub closed: Seq<EditRecord>,
    pub open: EditRecord,
    pub color: u64,
    pub used: nat,
}

/// One more delta, giving `c`: where its color differs from the last, the
/// open record is closed (dropped if it holds nothing) and the next fresh
/// group opens; then the open record takes in what the delta gives.
pub open spec fn group_step(g: Grouping, c: Contribution, fresh: Seq<UndoGroupId>) -> Grouping {
    let g1 = if c.0 != g.color {
        Grouping {
            closed: if record_empty(g.open) {
                g.closed
            } else {
                g.closed.push(g.open)
            },
            open: empty_record(fresh[g.used as int]),
            color: c.0,
            used: g.used + 1,
        }
    } else {
        g
    };
    Grouping {
        closed: g1.closed,
        open: (g1.open.0, g1.open.1 + c.1, g1.open.2 + c.2, g1.open.3 + c.3, g1.open.4 + c.4),
        color: g1.color,
        used: g1.used,
    }
}

/// The grouping of the contributions `cs`, from `start`, opening the
/// groups of `fresh` in turn.
pub open spec fn grouped(cs: Seq<Contribution>, start: Grouping, fresh: Seq<UndoGroupId>) -> Grouping
    decreases cs.len(),
{
    if cs.len() == 0 {
        start
    } else {
        group_step(grouped(cs.drop_last(), start, fresh), cs.last(), fresh)
    }
}

/// The records a grouping leaves: those closed, then the open one unless
/// it holds nothing.
pub open spec fn final_records(g: Grouping) -> Seq<EditRecord> {
    if record_empty(g.open) {
        g.closed
    } else {
        g.closed.push(g.open)
    }
}

/// Where an edit starts grouping: nothing closed, the open group `open`
/// holding nothing, the history's color.
pub open spec fn group_start(open: UndoGroupId, color: u64) -> Grouping {
    Grouping { closed: Seq::empty(), open: empty_record(open), color, used: 0 }
}

/// A grouping that only opened groups of `f` is the same with any longer
/// list that starts with `f`.
proof fn lemma_grouped_prefix(cs: Seq<Contribution>, start: Grouping, f: Seq<UndoGroupId>, f2: Seq<UndoGroupId>)
    requires
        grouped(cs, start, f).used <= f.len(),
        f.len() <= f2.len(),
        forall|i: int| 0 <= i < f.len() ==> f2[i] == f[i],
    ensures
        grouped(cs, start, f2) == grouped(cs, start, f),
        grouped(cs, start, f).used >= start.used,
    decreases cs.len(),
{
    if cs.len() > 0 {
        lemma_grouped_prefix(cs.drop_last(), start, f, f2);
    }
}

/// What an edit made of a session: the deltas applied in the order
/// `order`, putting in characters with the ids `new_ids`, and the edits
/// `recorded` shared. The text and ids are the run's; the recorded edits,
/// none empty, hold the ids put in and taken out and the values added and
/// taken out, in order. They are the records of the grouping of the run's
/// deltas: the first joins `open_group`, the history's last group where
/// there is one, while the color stays the history's; each change of color
/// closes the open record and opens the next of the groups `fresh`, which
/// are pushed onto the history. The redo stack is emptied, and the
/// history's color ends as that of the last delta. The shared sets gain the
/// run's characters and edges and the recorded edits, and the patch holds
/// an op for each, where no remove waited in the sets and this session's
/// counters stayed below `u64::MAX`; each counter counts one add per
/// member, up to `u64::MAX`, and that of the undone groups stays.
pub open spec fn edit_made<K, V>(
    before: TextEngine,
    after: TextEngine,
    p: TextPatch,
    deltas: Seq<Delta<K, V>>,
    vids: Seq<Option<u64>>,
    order: Seq<usize>,
    new_ids: Seq<Seq<CharId>>,
    recorded: Seq<Edit>,
    open_group: UndoGroupId,
    fresh: Seq<UndoGroupId>,
) -> bool {
    let run = edit_run(run_start(before.chars(), before.ids()), deltas, vids, order, new_ids);
    let fin = run->Some_0;
    let old_groups = before.undo_history().undo_stack();
    let groups = after.undo_history().undo_stack();
    let gr = grouped(fin.9, group_start(open_group, before.undo_history().color()), fresh);
    &&& run is Some
    &&& fin.0 == after.chars()
    &&& fin.1 == after.ids()
    &&& recorded_inserts(recorded) == fin.5
    &&& recorded_deletes(recorded) == fin.6
    &&& recorded_value_inserts(recorded) == fin.7
    &&& recorded_value_deletes(recorded) == fin.8
    &&& forall|i: int| 0 <= i < recorded.len() ==> !edit_empty(#[trigger] recorded[i])
    &&& fin.9.len() == order.len()
    &&& forall|i: int| 0 <= i < order.len() ==> (#[trigger] fin.9[i]).0 == delta_color(deltas[order[i] as int])
    &&& recorded.map_values(|e: Edit| record_of(e)) == final_records(gr)
    &&& gr.used == fresh.len()
    &&& old_groups.len() > 0 ==> open_group == old_groups.last()
    &&& groups == old_groups + fresh
    &&& after.undo_history().redo_stack().len() == 0
    &&& after.char_count() == counted(before.char_count(), fin.3.len())
    &&& after.edge_count() == counted(before.edge_count(), fin.4.len())
    &&& after.edit_count() == counted(before.edit_count(), recorded.len())
    &&& after.undone_count() == before.undone_count()
    &&& after.undo_history().color() == gr.color
    &&& order.len() > 0 ==> after.undo_history().color() == delta_color(deltas[order.last() as int])
    &&& order.len() == 0 ==> after.undo_history().color() == before.undo_history().color()
    &&& before.settled() && after.char_count() < u64::MAX ==> after.char_set() == before.char_set().union(
        fin.3.to_set(),
    ) && p.chars@.len() == fin.3.len()
    &&& before.settled() && after.edge_count() < u64::MAX ==> after.edge_set() == before.edge_set().union(
        fin.4.to_set(),
    ) && p.char_edges@.len() == fin.4.len()
    &&& before.settled() && after.edit_count() < u64::MAX ==> after.edit_set() == before.edit_set().union(
        recorded.to_set(),
    ) && p.edits@.len() == recorded.len()
}

/// One more delta of an edit extends its run by one step.
proof fn lemma_run_extend<K, V>(
    st: RunState,
    deltas: Seq<Delta<K, V>>,
    vids: Seq<Option<u64>>,
    order: Seq<usize>,
    k: int,
    ids: Seq<Seq<CharId>>,
    ni: Seq<CharId>,
)
    requires
        0 <= k < order.len(),
        ids.len() == k,
    ensures
        edit_run(st, deltas, vids, order.take(k + 1), ids.push(ni)) == match edit_run(st, deltas, vids, order.take(k), ids) {
            Some(s) => run_step(s, deltas[order[k] as int], vids[order[k] as int], ni),
            None => None,
        },
{
    assert(order.take(k + 1).drop_last() =~= order.take(k));
    assert(ids.push(ni).drop_last() =~= ids);
    assert(order.take(k + 1).last() == order[k]);
}

/// Pushing an edit onto a run of edits extends what the run records.
proof fn lemma_recorded_push(es: Seq<Edit>, e: Edit)
    ensures
        recorded_inserts(es.push(e)) == recorded_inserts(es) + e.char_inserts@,
        recorded_deletes(es.push(e)) == recorded_deletes(es) + e.char_deletes@,
        recorded_value_inserts(es.push(e)) == recorded_value_inserts(es) + e.value_inserts@,
        recorded_value_deletes(es.push(e)) == recorded_value_deletes(es) + e.value_deletes@,
{
    assert(es.push(e).drop_last() =~= es);
}

impl TextEngine {
    /// Records in the shared sets a text delta that replaced characters:
    /// its deleted and inserted ids go into the edit, its characters and
    /// the edges that thread them into the sets, each add made while this
    /// session's counter allows one.
    fn record_replacement(
        &mut self,
        edit: &mut Edit,
        rep: &crate::crdt::Replacement,
        new_text: &str,
        chars_ops: &mut Vec<Op<(u64, char), u64>>,
        edge_ops: &mut Vec<Op<(u64, u64), u64>>,
    )
        requires
            rep.inserted@.len() == new_text@.len(),
        ensures
            final(self).text == old(self).text,
            final(self).history == old(self).history,
            final(self).undone == old(self).undone,
            final(self).edits == old(self).edits,
            final(self).id == old(self).id,
            final(edit).undo_group == old(edit).undo_group,
            final(edit).char_inserts@ == old(edit).char_inserts@ + rep.inserted@,
            final(edit).char_deletes@ == old(edit).char_deletes@ + rep.deleted@,
            final(edit).value_inserts@ == old(edit).value_inserts@,
            final(edit).value_deletes@ == old(edit).value_deletes@,
            chars_clock(final(self).chars, final(self).id.0) == counted(
                chars_clock(old(self).chars, old(self).id.0),
                rep.inserted@.len(),
            ),
            edges_clock(final(self).char_edges, final(self).id.0) == counted(
                edges_clock(old(self).char_edges, old(self).id.0),
                thread_edges(rep.before, rep.inserted@, rep.after).len(),
            ),
            chars_settled(old(self).chars) ==> chars_settled(final(self).chars),
            edges_settled(old(self).char_edges) ==> edges_settled(final(self).char_edges),
            chars_settled(old(self).chars) && chars_clock(final(self).chars, final(self).id.0) < u64::MAX ==> char_members(
                final(self).chars,
            ) == char_members(old(self).chars).union(pairs_of(rep.inserted@, new_text@).to_set()) && final(chars_ops)@.len()
                == old(chars_ops)@.len() + rep.inserted@.len(),
            edges_settled(old(self).char_edges) && edges_clock(final(self).char_edges, final(self).id.0) < u64::MAX
                ==> edge_members(final(self).char_edges) == edge_members(old(self).char_edges).union(
                edge_ids(thread_edges(rep.before, rep.inserted@, rep.after)).to_set(),
            ) && final(edge_ops)@.len() == old(edge_ops)@.len() + thread_edges(rep.before, rep.inserted@, rep.after).len(),
    {
        let ghost e0 = *edit;
        let mut j: usize = 0;
        while j < rep.deleted.len()
            invariant
                j <= rep.deleted@.len(),
                edit.undo_group == e0.undo_group,
                edit.char_inserts@ == e0.char_inserts@,
                edit.char_deletes@ == e0.char_deletes@ + rep.deleted@.take(j as int),
                edit.value_inserts@ == e0.value_inserts@,
                edit.value_deletes@ == e0.value_deletes@,
            decreases rep.deleted@.len() - j,
        {
            edit.char_deletes.push(rep.deleted[j]);
            j = j + 1;
            assert(edit.char_deletes@ =~= e0.char_deletes@ + rep.deleted@.take(j as int));
        }
        assert(rep.deleted@.take(j as int) =~= rep.deleted@);
        let cs = chars_of(new_text);
        let ghost pairs = pairs_of(rep.inserted@, new_text@);
        let ghost m0 = char_members(self.chars);
        let ghost c0 = chars_clock(self.chars, self.id.0);
        let ghost ops0 = chars_ops@.len();
        let mut j: usize = 0;
        assert(pairs.take(0).to_set() =~= Set::<(u64, char)>::empty());
        assert(m0.union(Set::<(u64, char)>::empty()) =~= m0);
        while j < rep.inserted.len()
            invariant
                j <= rep.inserted@.len(),
                cs@ == new_text@,
                rep.inserted@.len() == new_text@.len(),
                pairs == pairs_of(rep.inserted@, new_text@),
                edit.undo_group == e0.undo_group,
                edit.char_inserts@ == e0.char_inserts@ + rep.inserted@.take(j as int),
                edit.char_deletes@ == e0.char_deletes@ + rep.deleted@,
                edit.value_inserts@ == e0.value_inserts@,
                edit.value_deletes@ == e0.value_deletes@,
                self.text == old(self).text,
                self.history == old(self).history,
                self.undone == old(self).undone,
                self.edits == old(self).edits,
                self.char_edges == old(self).char_edges,
                self.id == old(self).id,
                m0 == char_members(old(self).chars),
                c0 == chars_clock(old(self).chars, old(self).id.0),
                ops0 == old(chars_ops)@.len(),
                chars_clock(self.chars, self.id.0) == counted(c0, j as nat),
                chars_settled(old(self).chars) ==> chars_settled(self.chars),
                chars_settled(old(self).chars) && chars_clock(self.chars, self.id.0) < u64::MAX ==> char_members(self.chars)
                    == m0.union(pairs.take(j as int).to_set()) && chars_ops@.len() == ops0 + j,
            decreases rep.inserted@.len() - j,
        {
            let id = rep.inserted[j];
            edit.char_inserts.push(id);
            if chars_counter(&self.chars, self.id.0) < u64::MAX {
                let op = chars_add(&mut self.chars, (id.0, cs[j]), self.id.0);
                chars_ops.push(op);
                proof {
                    assert(pairs[j as int] == (id.0, cs@[j as int]));
                    pairs.take(j as int).lemma_push_to_set_commute(pairs[j as int]);
                    assert(pairs.take(j + 1) =~= pairs.take(j as int).push(pairs[j as int]));
                    assert(m0.union(pairs.take(j + 1).to_set()) =~= m0.union(pairs.take(j as int).to_set()).insert(
                        pairs[j as int],
                    ));
                }
            }
            j = j + 1;
            assert(edit.char_inserts@ =~= e0.char_inserts@ + rep.inserted@.take(j as int));
        }
        assert(rep.inserted@.take(j as int) =~= rep.inserted@);
        assert(pairs.take(j as int) =~= pairs);
        let edges = thread(rep.before, rep.inserted.as_slice(), rep.after);
        let ghost chars_after = self.chars;
        let ghost es = edge_ids(edges@);
        let ghost n0 = edge_members(self.char_edges);
        let ghost d0 = edges_clock(self.char_edges, self.id.0);
        let ghost eops0 = edge_ops@.len();
        assert(es.take(0).to_set() =~= Set::<(u64, u64)>::empty());
        assert(n0.union(Set::<(u64, u64)>::empty()) =~= n0);
        let mut j: usize = 0;
        while j < edges.len()
            invariant
                j <= edges@.len(),
                es == edge_ids(edges@),
                self.chars == chars_after,
                self.text == old(self).text,
                self.history == old(self).history,
                self.undone == old(self).undone,
                self.edits == old(self).edits,
                self.id == old(self).id,
                n0 == edge_members(old(self).char_edges),
                d0 == edges_clock(old(self).char_edges, old(self).id.0),
                eops0 == old(edge_ops)@.len(),
                edges_clock(self.char_edges, self.id.0) == counted(d0, j as nat),
                edges_settled(old(self).char_edges) ==> edges_settled(self.char_edges),
                edges_settled(old(self).char_edges) && edges_clock(self.char_edges, self.id.0) < u64::MAX
                    ==> edge_members(self.char_edges) == n0.union(es.take(j as int).to_set()) && edge_ops@.len() == eops0
                    + j,
            decreases edges@.len() - j,
        {
            let (from, to) = edges[j];
            if edges_counter(&self.char_edges, self.id.0) < u64::MAX {
                let op = edges_add(&mut self.char_edges, (from.0, to.0), self.id.0);
                edge_ops.push(op);
                proof {
                    assert(es[j as int] == (from.0, to.0));
                    es.take(j as int).lemma_push_to_set_commute(es[j as int]);
                    assert(es.take(j + 1) =~= es.take(j as int).push(es[j as int]));
                    assert(n0.union(es.take(j + 1).to_set()) =~= n0.union(es.take(j as int).to_set()).insert(es[j as int]));
                }
            }
            j = j + 1;
        }
        assert(es.take(j as int) =~= es);
    }
}

impl TextEngine {
    /// Applies the deltas of one edit by increasing key (the start of a
    /// text delta's range, 0 for a change to the meta data), deltas with
    /// equal keys in the order given; each text delta's range is moved by
    /// the change of length that the text deltas before it made. The ids
    /// of the characters it removes and puts in, and those in `value_ids`
    /// of its meta data changes (the value an assignment adds, the value a
    /// removal takes out, at the delta's position), go into the edits of
    /// the history's groups: the deltas join the last group while their
    /// color is the history's, and a change of color opens a new group.
    /// Nothing is left to redo, and the history takes the last color. The
    /// characters put in and the edges that thread them go into the shared
    /// sets, and so do the edits, each add made while this session's
    /// counter allows one. Every text delta must fall within the text.
    #[verifier::rlimit(100)]
    #[verifier::spinoff_prover]
    pub fn edit<K, V>(&mut self, deltas: &[Delta<K, V>], value_ids: &[Option<u64>]) -> (p: TextPatch)
        requires
            old(self).wf(),
            value_ids@.len() == deltas@.len(),
            forall|order: Seq<usize>|
                stable_order(delta_keys(deltas@), order) ==> (#[trigger] text_deltas_applied(
                    old(self).chars(),
                    0,
                    deltas@,
                    order,
                )) is Some,
        ensures
            final(self).wf(),
            old(self).settled() ==> final(self).settled(),
            final(self).undone_set() == old(self).undone_set(),
            final(self).session() == old(self).session(),
            exists|order: Seq<usize>| #[trigger] stable_order(delta_keys(deltas@), order),
            forall|order: Seq<usize>|
                #[trigger] stable_order(delta_keys(deltas@), order) ==> text_deltas_applied(
                    old(self).chars(),
                    0,
                    deltas@,
                    order,
                ) == Some(final(self).chars()),
            forall|order: Seq<usize>|
                #[trigger] stable_order(delta_keys(deltas@), order) ==> exists|
                    new_ids: Seq<Seq<CharId>>,
                    recorded: Seq<Edit>,
                    open_group: UndoGroupId,
                    fresh: Seq<UndoGroupId>,
                | #[trigger] edit_made(
                    *old(self),
                    *final(self),
                    p,
                    deltas@,
                    value_ids@,
                    order,
                    new_ids,
                    recorded,
                    open_group,
                    fresh,
                ),
    {
        let mut keys: Vec<usize> = Vec::new();
        let mut i: usize = 0;
        while i < deltas.len()
            invariant
                i <= deltas@.len(),
                keys@ == delta_keys(deltas@).take(i as int),
            decreases deltas@.len() - i,
        {
            let key = match &deltas[i] {
                Delta::Text { range, .. } => range.0,
                Delta::Value { .. } => 0,
            };
            keys.push(key);
            i = i + 1;
            assert(keys@ =~= delta_keys(deltas@).take(i as int));
        }
        assert(keys@ =~= delta_keys(deltas@));
        let order = delta_order(keys.as_slice());
        let ghost start_chars = self.text.chars();
        let ghost whole = text_deltas_applied(start_chars, 0, deltas@, order@);
        assert(stable_order(delta_keys(deltas@), order@));
        assert(start_chars == old(self).chars());
        assert(text_deltas_applied(old(self).chars(), 0, deltas@, order@) is Some);
        assert(whole is Some);
        assert(order@.skip(0) =~= order@);
        let mut chars_ops: Vec<Op<(u64, char), u64>> = Vec::new();
        let mut edge_ops: Vec<Op<(u64, u64), u64>> = Vec::new();
        let mut edit_ops: Vec<Op<Edit, u64>> = Vec::new();
        let ghost start = run_start(self.text.chars(), self.text.spec_ids());
        let ghost mut cur: RunState = start;
        let ghost mut new_ids: Seq<Seq<CharId>> = Seq::empty();
        let ghost mut recorded: Seq<Edit> = Seq::empty();
        let ghost old_groups = self.history.undo_stack();
        let ghost cm0 = char_members(self.chars);
        let ghost em0 = edge_members(self.char_edges);
        let ghost dm0 = edit_members(self.edits);
        let ghost old_color = self.history.color();
        let ghost cc0 = chars_clock(self.chars, self.id.0);
        let ghost ec0 = edges_clock(self.char_edges, self.id.0);
        let ghost dc0 = edits_clock(self.edits, self.id.0);
        let group = self.history.begin_edit();
        let mut edit = Edit::new(group);
        let ghost start_g = group_start(group, old_color);
        let ghost mut gs: Seq<UndoGroupId> = Seq::empty();
        let mut shift: isize = 0;
        let mut k: usize = 0;
        proof {
            assert(order@.take(0) =~= Seq::<usize>::empty());
            assert(cm0.union(Seq::<(u64, char)>::empty().to_set()) =~= cm0);
            assert(em0.union(Seq::<(u64, u64)>::empty().to_set()) =~= em0);
            assert(dm0.union(Seq::<Edit>::empty().to_set()) =~= dm0);
            assert(recorded_inserts(recorded) + edit.char_inserts@ =~= cur.5);
            assert(recorded_deletes(recorded) + edit.char_deletes@ =~= cur.6);
            assert(recorded_value_inserts(recorded) + edit.value_inserts@ =~= cur.7);
            assert(recorded_value_deletes(recorded) + edit.value_deletes@ =~= cur.8);
            assert(self.history.undo_stack() =~= old_groups + gs);
            assert(record_of(edit) =~= start_g.open);
            assert(recorded.map_values(|e: Edit| record_of(e)) =~= start_g.closed);
        }
        while k < order.len()
            invariant
                k <= order@.len(),
                stable_order(keys@, order@),
                keys@ == delta_keys(deltas@),
                value_ids@.len() == deltas@.len(),
                self.text.wf(),
                whole is Some,
                whole == text_deltas_applied(start_chars, 0, deltas@, order@),
                text_deltas_applied(self.text.chars(), shift as int, deltas@, order@.skip(k as int)) == whole,
                self.undone == old(self).undone,
                self.id == old(self).id,
                start == run_start(old(self).chars(), old(self).ids()),
                new_ids.len() == k,
                edit_run(start, deltas@, value_ids@, order@.take(k as int), new_ids) == Some(cur),
                cur.0 == self.text.chars(),
                cur.1 == self.text.spec_ids(),
                cur.2 == shift as int,
                recorded_inserts(recorded) + edit.char_inserts@ == cur.5,
                recorded_deletes(recorded) + edit.char_deletes@ == cur.6,
                recorded_value_inserts(recorded) + edit.value_inserts@ == cur.7,
                recorded_value_deletes(recorded) + edit.value_deletes@ == cur.8,
                forall|i: int| 0 <= i < recorded.len() ==> !edit_empty(#[trigger] recorded[i]),
                old_groups == old(self).history.undo_stack(),
                old_color == old(self).history.color(),
                cc0 == chars_clock(old(self).chars, old(self).id.0),
                ec0 == edges_clock(old(self).char_edges, old(self).id.0),
                dc0 == edits_clock(old(self).edits, old(self).id.0),
                chars_clock(self.chars, self.id.0) == counted(cc0, cur.3.len()),
                edges_clock(self.char_edges, self.id.0) == counted(ec0, cur.4.len()),
                edits_clock(self.edits, self.id.0) == counted(dc0, recorded.len()),
                old_groups.len() > 0 ==> group == old_groups.last(),
                start_g == group_start(group, old_color),
                cur.9.len() == k,
                forall|i: int| 0 <= i < k ==> (#[trigger] cur.9[i]).0 == delta_color(deltas@[order@[i] as int]),
                grouped(cur.9, start_g, gs).used == gs.len(),
                record_of(edit) == grouped(cur.9, start_g, gs).open,
                recorded.map_values(|e: Edit| record_of(e)) == grouped(cur.9, start_g, gs).closed,
                self.history.undo_stack() == old_groups + gs,
                self.history.redo_stack().len() == 0,
                self.history.color() == grouped(cur.9, start_g, gs).color,
                k > 0 ==> self.history.color() == delta_color(deltas@[order@[k - 1] as int]),
                k == 0 ==> self.history.color() == old_color,
                cm0 == char_members(old(self).chars),
                em0 == edge_members(old(self).char_edges),
                dm0 == edit_members(old(self).edits),
                chars_settled(old(self).chars) && chars_clock(self.chars, self.id.0) < u64::MAX ==> char_members(self.chars)
                    == cm0.union(cur.3.to_set()) && chars_ops@.len() == cur.3.len(),
                edges_settled(old(self).char_edges) && edges_clock(self.char_edges, self.id.0) < u64::MAX ==> edge_members(
                    self.char_edges,
                ) == em0.union(cur.4.to_set()) && edge_ops@.len() == cur.4.len(),
                edits_settled(old(self).edits) && edits_clock(self.edits, self.id.0) < u64::MAX ==> edit_members(self.edits)
                    == dm0.union(recorded.to_set()) && edit_ops@.len() == recorded.len(),
                chars_settled(old(self).chars) ==> chars_settled(self.chars),
                edges_settled(old(self).char_edges) ==> edges_settled(self.char_edges),
                edits_settled(old(self).edits) ==> edits_settled(self.edits),
                undone_settled(old(self).undone) ==> undone_settled(self.undone),
            decreases order@.len() - k,
        {
            let index = order[k];
            let ghost rest = order@.skip(k as int);
            assert(rest[0] == index);
            assert(rest.drop_first() =~= order@.skip(k + 1));
            let delta = &deltas[index];
            let color = match delta {
                Delta::Text { color, .. } => *color,
                Delta::Value { color, .. } => *color,
            };
            let ghost cur0 = cur;
            let ghost gs0 = gs;
            let ghost gr0 = grouped(cur.9, start_g, gs);
            let ghost rec_before = recorded;
            match self.history.recolor(color) {
                Some(g) => {
                    let done = edit;
                    edit = Edit::new(g);
                    self.commit(done, &mut edit_ops);
                    proof {
                        lemma_recorded_push(recorded, done);
                        if !edit_empty(done) {
                            if edits_settled(old(self).edits) && edits_clock(self.edits, self.id.0) < u64::MAX {
                                recorded.lemma_push_to_set_commute(done);
                                assert(dm0.union(recorded.push(done).to_set()) =~= dm0.union(recorded.to_set()).insert(done));
                            }
                            recorded = recorded.push(done);
                        }
                        assert(recorded_inserts(recorded) + edit.char_inserts@ =~= cur.5);
                        assert(recorded_deletes(recorded) + edit.char_deletes@ =~= cur.6);
                        assert(recorded_value_inserts(recorded) + edit.value_inserts@ =~= cur.7);
                        assert(recorded_value_deletes(recorded) + edit.value_deletes@ =~= cur.8);
                        lemma_counted_add(dc0, rec_before.len(), (recorded.len() - rec_before.len()) as nat);
                        gs = gs.push(g);
                        assert(self.history.undo_stack() =~= old_groups + gs);
                        let mid = Grouping {
                            closed: if record_empty(gr0.open) {
                                gr0.closed
                            } else {
                                gr0.closed.push(gr0.open)
                            },
                            open: empty_record(g),
                            color,
                            used: gr0.used + 1,
                        };
                        assert(recorded.map_values(|e: Edit| record_of(e)) =~= mid.closed);
                        assert(record_of(edit) =~= mid.open);
                    }
                },
                None => {},
            }
            match delta {
                Delta::Text { range, new_text, .. } => {
                    proof {
                        self.text.lemma_wf_lengths();
                    }
                    let rep = self.text.apply_delta(&mut shift, *range, new_text.as_str());
                    match rep {
                        Some(rep) => {
                            let ghost prev = cur;
                            self.record_replacement(&mut edit, &rep, new_text.as_str(), &mut chars_ops, &mut edge_ops);
                            proof {
                                let ni = rep.inserted@;
                                let step = run_step(prev, *delta, value_ids@[index as int], ni);
                                assert(step is Some);
                                lemma_run_extend(start, deltas@, value_ids@, order@, k as int, new_ids, ni);
                                cur = step->Some_0;
                                new_ids = new_ids.push(ni);
                                lemma_counted_add(cc0, prev.3.len(), ni.len());
                                lemma_counted_add(ec0, prev.4.len(), thread_edges(rep.before, ni, rep.after).len());
                                assert(cur.0 =~= self.text.chars());
                                assert(cur.1 =~= self.text.spec_ids());
                                assert(recorded_inserts(recorded) + edit.char_inserts@ =~= cur.5);
                                assert(recorded_deletes(recorded) + edit.char_deletes@ =~= cur.6);
                                vstd::seq_lib::seq_to_set_distributes_over_add(prev.3, pairs_of(ni, new_text@));
                                vstd::seq_lib::seq_to_set_distributes_over_add(
                                    prev.4,
                                    edge_ids(thread_edges(rep.before, ni, rep.after)),
                                );
                                assert(cm0.union(cur.3.to_set()) =~= cm0.union(prev.3.to_set()).union(
                                    pairs_of(ni, new_text@).to_set(),
                                ));
                                assert(em0.union(cur.4.to_set()) =~= em0.union(prev.4.to_set()).union(
                                    edge_ids(thread_edges(rep.before, ni, rep.after)).to_set(),
                                ));
                            }
                        },
                        None => {
                            assert(false);
                        },
                    }
                },
                Delta::Value { op, .. } => {
                    match value_ids[index] {
                        Some(id) => match op {
                            ValueOp::Assign(_, _) => {
                                edit.value_inserts.push(ValueId(id));
                            },
                            ValueOp::Remove(_) => {
                                edit.value_deletes.push(ValueId(id));
                            },
                        },
                        None => {},
                    }
                    proof {
                        let step = run_step(cur, *delta, value_ids@[index as int], Seq::<CharId>::empty());
                        lemma_run_extend(start, deltas@, value_ids@, order@, k as int, new_ids, Seq::<CharId>::empty());
                        cur = step->Some_0;
                        new_ids = new_ids.push(Seq::<CharId>::empty());
                        assert(recorded_value_inserts(recorded) + edit.value_inserts@ =~= cur.7);
                        assert(recorded_value_deletes(recorded) + edit.value_deletes@ =~= cur.8);
                    }
                },
            }
            proof {
                let c = cur.9.last();
                assert(cur.9.drop_last() =~= cur0.9);
                assert(c.0 == color);
                lemma_grouped_prefix(cur0.9, start_g, gs0, gs);
                assert(grouped(cur0.9, start_g, gs) == gr0);
                assert(record_of(edit) =~= grouped(cur.9, start_g, gs).open);
                assert forall|i: int| 0 <= i < k + 1 implies (#[trigger] cur.9[i]).0 == delta_color(
                    deltas@[order@[i] as int],
                ) by {
                    if i < k {
                        assert(cur.9[i] == cur0.9[i]);
                    }
                }
            }
            k = k + 1;
        }
        let ghost last = edit;
        let ghost rec_open = recorded;
        self.commit(edit, &mut edit_ops);
        proof {
            lemma_recorded_push(recorded, last);
            lemma_counted_add(dc0, recorded.len(), 1);
            if !edit_empty(last) {
                if edits_settled(old(self).edits) && edits_clock(self.edits, self.id.0) < u64::MAX {
                    recorded.lemma_push_to_set_commute(last);
                    assert(dm0.union(recorded.push(last).to_set()) =~= dm0.union(recorded.to_set()).insert(last));
                }
                recorded = recorded.push(last);
            } else {
                assert(recorded_inserts(recorded) =~= cur.5);
                assert(recorded_deletes(recorded) =~= cur.6);
                assert(recorded_value_inserts(recorded) =~= cur.7);
                assert(recorded_value_deletes(recorded) =~= cur.8);
            }
            assert(order@.skip(k as int) =~= Seq::<usize>::empty());
            assert(order@.take(k as int) =~= order@);
            assert(recorded.map_values(|e: Edit| record_of(e)) =~= final_records(grouped(cur.9, start_g, gs)));
            assert(self.history.undo_stack() == old_groups + gs);
            assert forall|o: Seq<usize>|
                #[trigger] stable_order(delta_keys(deltas@), o) implies text_deltas_applied(
                    start_chars,
                    0,
                    deltas@,
                    o,
                ) == Some(self.text.chars()) by {
                lemma_stable_order_unique(delta_keys(deltas@), o, order@);
            }
        }
        let p = TextPatch { chars: chars_ops, char_edges: edge_ops, edits: edit_ops };
        proof {
            assert(edit_made(*old(self), *self, p, deltas@, value_ids@, order@, new_ids, recorded, group, gs));
            assert forall|o: Seq<usize>| #[trigger] stable_order(delta_keys(deltas@), o) implies exists|
                n: Seq<Seq<CharId>>,
                r: Seq<Edit>,
                g: UndoGroupId,
                f: Seq<UndoGroupId>,
            | #[trigger] edit_made(*old(self), *self, p, deltas@, value_ids@, o, n, r, g, f) by {
                lemma_stable_order_unique(delta_keys(deltas@), o, order@);
            }
        }
        p
    }
}

/// The characters an edit put in are gone where its group is undone.
proof fn lemma_undone_inserts_gone(eds: Seq<Edit>, undone: Seq<UndoGroupId>, e: Edit, c: CharId)
    requires
        eds.contains(e),
        undone.contains(e.undo_group),
        e.char_inserts@.contains(c),
    ensures
        gone_chars(eds, undone).contains(c),
    decreases eds.len(),
{
    let rest = eds.drop_last();
    let last = eds.last();
    let tail = if undone.contains(last.undo_group) {
        last.char_inserts@
    } else {
        last.char_deletes@
    };
    assert(gone_chars(eds, undone) == gone_chars(rest, undone) + tail);
    if last == e {
        let k = choose|k: int| 0 <= k < e.char_inserts@.len() && e.char_inserts@[k] == c;
        assert((gone_chars(rest, undone) + tail)[gone_chars(rest, undone).len() + k] == c);
    } else {
        let i = choose|i: int| 0 <= i < eds.len() && eds[i] == e;
        assert(rest[i] == e);
        lemma_undone_inserts_gone(rest, undone, e, c);
        let k = choose|k: int| 0 <= k < gone_chars(rest, undone).len() && gone_chars(rest, undone)[k] == c;
        assert((gone_chars(rest, undone) + tail)[k] == c);
    }
}

/// Undo takes out what an edit put in: in a text laid out from shared
/// sets (not too many characters and edges to walk), no character stands
/// that an edit of the set of edits put in, where the set of undone groups
/// holds the edit's group.
pub proof fn lemma_undone_edit_leaves_layout(
    ids: Seq<CharId>,
    chars: Seq<char>,
    gone_vals: Seq<ValueId>,
    old_ids: Seq<CharId>,
    old_chars: Seq<char>,
    chars_set: Set<(u64, char)>,
    edges_set: Set<(u64, u64)>,
    edits_set: Set<Edit>,
    undone_set: Set<u64>,
    e: Edit,
    c: CharId,
)
    requires
        rebuilt_from(ids, chars, gone_vals, old_ids, old_chars, chars_set, edges_set, edits_set, undone_set),
        chars_set.len() + edges_set.len() <= usize::MAX,
        edits_set.contains(e),
        undone_set.contains(e.undo_group.0),
        e.char_inserts@.contains(c),
    ensures
        !ids.contains(c),
{
    let (cs, es, eds, us) = choose|cs: Seq<(u64, char)>, es: Seq<(u64, u64)>, eds: Seq<Edit>, us: Seq<u64>|
        rebuilt_by(
            ids,
            chars,
            gone_vals,
            old_ids,
            old_chars,
            chars_set,
            edges_set,
            edits_set,
            undone_set,
            cs,
            es,
            eds,
            us,
        );
    cs.unique_seq_to_set();
    es.unique_seq_to_set();
    assert(laid_out(ids, chars, cs, es, eds, us));
    assert(eds.contains(e));
    assert(us.contains(e.undo_group.0));
    let j = choose|j: int| 0 <= j < us.len() && us[j] == e.undo_group.0;
    assert(undone_groups(us)[j] == e.undo_group);
    assert(undone_groups(us).contains(e.undo_group));
    lemma_undone_inserts_gone(eds, undone_groups(us), e, c);
    let gc = gone_chars(eds, undone_groups(us));
    let k = choose|k: int| 0 <= k < gc.len() && gc[k] == c;
    assert(gone_ids(eds, us).contains(c.0)) by {
        assert(gc[k].0 == c.0);
    }
    let lo = laid_out_ids(cs, es, eds, us);
    lemma_laid_out_not_gone(cs.map_values(|p: (u64, char)| p.0), es, gone_ids(eds, us));
    if ids.contains(c) {
        let m = choose|m: int| 0 <= m < ids.len() && ids[m] == c;
        assert(ids[m] == CharId(lo[m]));
        assert(!gone_ids(eds, us).contains(lo[m]));
    }
}

/// A character is not gone where every edit that deletes it is in an
/// undone group and no edit of an undone group inserts it.
proof fn lemma_restored_not_gone(eds: Seq<Edit>, undone: Seq<UndoGroupId>, c: CharId)
    requires
        forall|i: int|
            0 <= i < eds.len() && (#[trigger] eds[i]).char_deletes@.contains(c) ==> undone.contains(eds[i].undo_group),
        forall|i: int|
            0 <= i < eds.len() && undone.contains((#[trigger] eds[i]).undo_group) ==> !eds[i].char_inserts@.contains(c),
    ensures
        !gone_chars(eds, undone).contains(c),
    decreases eds.len(),
{
    if eds.len() > 0 {
        let rest = eds.drop_last();
        let last = eds.last();
        assert forall|i: int| 0 <= i < rest.len() && (#[trigger] rest[i]).char_deletes@.contains(c) implies undone.contains(
            rest[i].undo_group,
        ) by {
            assert(rest[i] == eds[i]);
        }
        assert forall|i: int| 0 <= i < rest.len() && undone.contains((#[trigger] rest[i]).undo_group) implies !rest[i].char_inserts@.contains(
            c,
        ) by {
            assert(rest[i] == eds[i]);
        }
        lemma_restored_not_gone(rest, undone, c);
        let tail = if undone.contains(last.undo_group) {
            last.char_inserts@
        } else {
            last.char_deletes@
        };
        assert(eds[eds.len() - 1] == last);
        assert(!tail.contains(c));
        let gr = gone_chars(rest, undone);
        assert(gone_chars(eds, undone) == gr + tail);
        if (gr + tail).contains(c) {
            let k = choose|k: int| 0 <= k < (gr + tail).len() && (gr + tail)[k] == c;
            if k < gr.len() {
                assert(gr[k] == c);
            } else {
                assert(tail[k - gr.len()] == c);
            }
        }
    }
}

/// What undone edits deleted comes back: where every shared edit that
/// deletes the character `c` is in an undone group, and no edit of an
/// undone group inserts it, the text rebuilt from the shared sets is laid
/// out from a listing of the characters and edges with `c` not taken out,
/// as if it had never been deleted.
pub proof fn lemma_undone_deletes_come_back(
    ids: Seq<CharId>,
    chars: Seq<char>,
    gone_vals: Seq<ValueId>,
    old_ids: Seq<CharId>,
    old_chars: Seq<char>,
    chars_set: Set<(u64, char)>,
    edges_set: Set<(u64, u64)>,
    edits_set: Set<Edit>,
    undone_set: Set<u64>,
    c: CharId,
)
    requires
        rebuilt_from(ids, chars, gone_vals, old_ids, old_chars, chars_set, edges_set, edits_set, undone_set),
        chars_set.len() + edges_set.len() <= usize::MAX,
        forall|e: Edit|
            #[trigger] edits_set.contains(e) && e.char_deletes@.contains(c) ==> undone_set.contains(e.undo_group.0),
        forall|e: Edit|
            #[trigger] edits_set.contains(e) && undone_set.contains(e.undo_group.0) ==> !e.char_inserts@.contains(c),
    ensures
        exists|cs: Seq<u64>, es: Seq<(u64, u64)>, gone: Set<u64>|
            {
                &&& cs.to_set() == chars_set.map(|p: (u64, char)| p.0)
                &&& es.to_set() == edges_set
                &&& !gone.contains(c.0)
                &&& ids == (#[trigger] linearized(cs, es, gone)).map_values(|i: u64| CharId(i))
            },
{
    let (cs, es, eds, us) = choose|cs: Seq<(u64, char)>, es: Seq<(u64, u64)>, eds: Seq<Edit>, us: Seq<u64>|
        rebuilt_by(
            ids,
            chars,
            gone_vals,
            old_ids,
            old_chars,
            chars_set,
            edges_set,
            edits_set,
            undone_set,
            cs,
            es,
            eds,
            us,
        );
    cs.unique_seq_to_set();
    es.unique_seq_to_set();
    assert(laid_out(ids, chars, cs, es, eds, us));
    let ug = undone_groups(us);
    assert forall|i: int| 0 <= i < eds.len() && (#[trigger] eds[i]).char_deletes@.contains(c) implies ug.contains(
        eds[i].undo_group,
    ) by {
        assert(eds.to_set().contains(eds[i]));
        assert(us.to_set().contains(eds[i].undo_group.0));
        let j = choose|j: int| 0 <= j < us.len() && us[j] == eds[i].undo_group.0;
        assert(ug[j] == eds[i].undo_group);
    }
    assert forall|i: int| 0 <= i < eds.len() && ug.contains((#[trigger] eds[i]).undo_group) implies !eds[i].char_inserts@.contains(
        c,
    ) by {
        assert(eds.to_set().contains(eds[i]));
        let j = choose|j: int| 0 <= j < ug.len() && ug[j] == eds[i].undo_group;
        assert(us[j] == eds[i].undo_group.0);
        assert(us.to_set().contains(us[j]));
    }
    lemma_restored_not_gone(eds, ug, c);
    let gc = gone_chars(eds, ug);
    if gone_ids(eds, us).contains(c.0) {
        let j = choose|j: int| 0 <= j < gc.len() && gc[j].0 == c.0;
        assert(gc[j] == c);
    }
    let nodes = cs.map_values(|p: (u64, char)| p.0);
    assert(nodes.to_set() =~= chars_set.map(|p: (u64, char)| p.0)) by {
        assert forall|x: u64| nodes.to_set().contains(x) implies chars_set.map(|p: (u64, char)| p.0).contains(x) by {
            let k = choose|k: int| 0 <= k < nodes.len() && nodes[k] == x;
            assert(cs.to_set().contains(cs[k]));
        }
        assert forall|x: u64| chars_set.map(|p: (u64, char)| p.0).contains(x) implies nodes.to_set().contains(x) by {
            let p = choose|p: (u64, char)| chars_set.contains(p) && p.0 == x;
            assert(cs.to_set().contains(p));
            let k = choose|k: int| 0 <= k < cs.len() && cs[k] == p;
            assert(nodes[k] == x);
        }
    }
    assert(ids == linearized(nodes, es, gone_ids(eds, us)).map_values(|i: u64| CharId(i)));
}

/// The undone groups of a list of group ids.
pub open spec fn undone_groups(us: Seq<u64>) -> Seq<UndoGroupId> {
    us.map_values(|u: u64| UndoGroupId(u))
}

/// `ids`, `chars` and `gone_vals` are the text and the gone values laid out
/// from some listing of the shared sets `chars_set`, `edges_set`,
/// `edits_set` and `undone_set`, each member listed once: the text where
/// the characters and edges are few enough to be walked together.
pub open spec fn rebuilt_from(
    ids: Seq<CharId>,
    chars: Seq<char>,
    gone_vals: Seq<ValueId>,
    old_ids: Seq<CharId>,
    old_chars: Seq<char>,
    chars_set: Set<(u64, char)>,
    edges_set: Set<(u64, u64)>,
    edits_set: Set<Edit>,
    undone_set: Set<u64>,
) -> bool {
    exists|cs: Seq<(u64, char)>, es: Seq<(u64, u64)>, eds: Seq<Edit>, us: Seq<u64>|
        #[trigger] rebuilt_by(
            ids,
            chars,
            gone_vals,
            old_ids,
            old_chars,
            chars_set,
            edges_set,
            edits_set,
            undone_set,
            cs,
            es,
            eds,
            us,
        )
}

/// `ids`, `chars` and `gone_vals` are the text and the gone values laid out
/// from the listing `cs`, `es`, `eds`, `us` of the shared sets, each member
/// listed once (see `rebuilt_from`).
pub open spec fn rebuilt_by(
    ids: Seq<CharId>,
    chars: Seq<char>,
    gone_vals: Seq<ValueId>,
    old_ids: Seq<CharId>,
    old_chars: Seq<char>,
    chars_set: Set<(u64, char)>,
    edges_set: Set<(u64, u64)>,
    edits_set: Set<Edit>,
    undone_set: Set<u64>,
    cs: Seq<(u64, char)>,
    es: Seq<(u64, u64)>,
    eds: Seq<Edit>,
    us: Seq<u64>,
) -> bool {
    &&& cs.to_set() == chars_set && cs.no_duplicates()
    &&& es.to_set() == edges_set && es.no_duplicates()
    &&& eds.to_set() == edits_set && eds.no_duplicates()
    &&& us.to_set() == undone_set && us.no_duplicates()
    &&& gone_vals == gone_values(eds, undone_groups(us))
    &&& if cs.len() + es.len() <= usize::MAX {
        laid_out(ids, chars, cs, es, eds, us)
    } else {
        ids == old_ids && chars == old_chars
    }
}

/// The undone groups of a list of group ids, and the gone characters and
/// values that the edits make of them.
fn undone_group_ids(us: &[u64]) -> (r: Vec<UndoGroupId>)
    ensures
        r@ == undone_groups(us@),
{
    let mut groups: Vec<UndoGroupId> = Vec::new();
    let mut j: usize = 0;
    while j < us.len()
        invariant
            j <= us@.len(),
            groups@ == undone_groups(us@).take(j as int),
        decreases us@.len() - j,
    {
        groups.push(UndoGroupId(us[j]));
        j = j + 1;
        assert(groups@ =~= undone_groups(us@).take(j as int));
    }
    assert(groups@ =~= undone_groups(us@));
    groups
}

/// The values that the edits `eds` make gone, with the groups `us` undone.
pub fn gone_values_of(eds: &[Edit], us: &[u64]) -> (r: Vec<ValueId>)
    ensures
        r@ == gone_values(eds@, undone_groups(us@)),
{
    let groups = undone_group_ids(us);
    let (_, gv) = gone(eds, groups.as_slice());
    gv
}

/// The text laid out from the characters `cs`, the edges `es`, the edits
/// `eds` and the undone groups `us`: the ids in the order the edges give
/// (see `linearize`), leaving out the characters that are gone, and the
/// character of each (that of the last pair in `cs` with its id).
pub fn lay_out(cs: &[(u64, char)], es: &[(u64, u64)], eds: &[Edit], us: &[u64]) -> (r: (Vec<CharId>, String))
    requires
        cs@.len() + es@.len() <= usize::MAX,
    ensures
        laid_out(r.0@, r.1@, cs@, es@, eds@, us@),
{
    let groups = undone_group_ids(us);
    let (gc, _) = gone(eds, groups.as_slice());
    let mut deleted: HashSet<u64> = HashSet::new();
    let mut j: usize = 0;
    while j < gc.len()
        invariant
            j <= gc@.len(),
            forall|x: u64| deleted@.contains(x) <==> exists|i: int| 0 <= i < j && gc@[i].0 == x,
        decreases gc@.len() - j,
    {
        deleted.insert(gc[j].0);
        j = j + 1;
        proof {
            assert forall|x: u64| deleted@.contains(x) <==> exists|i: int| 0 <= i < j && gc@[i].0 == x by {
                if x == gc@[j - 1].0 {
                    assert(gc@[j - 1].0 == x);
                }
            }
        }
    }
    assert(deleted@ =~= gone_ids(eds@, us@));
    let mut nodes: Vec<u64> = Vec::new();
    let mut map: HashMap<u64, char> = HashMap::new();
    let mut j: usize = 0;
    while j < cs.len()
        invariant
            j <= cs@.len(),
            nodes@ == cs@.take(j as int).map_values(|c: (u64, char)| c.0),
            map@ == char_map(cs@.take(j as int)),
        decreases cs@.len() - j,
    {
        let (id, c) = cs[j];
        nodes.push(id);
        map.insert(id, c);
        j = j + 1;
        assert(cs@.take(j as int).drop_last() =~= cs@.take(j - 1));
        assert(nodes@ =~= cs@.take(j as int).map_values(|c: (u64, char)| c.0));
    }
    assert(cs@.take(j as int) =~= cs@);
    let order = linearize(nodes.as_slice(), es, &deleted);
    let ghost lo = laid_out_ids(cs@, es@, eds@, us@);
    assert(order@ == lo);
    let mut text_chars: Vec<char> = Vec::new();
    let mut ids: Vec<CharId> = Vec::new();
    let mut j: usize = 0;
    while j < order.len()
        invariant
            j <= order@.len(),
            order@ == lo,
            map@ == char_map(cs@),
            ids@ == lo.take(j as int).map_values(|i: u64| CharId(i)),
            text_chars@ == lo.take(j as int).map_values(|i: u64| char_of(cs@, i)),
        decreases order@.len() - j,
    {
        let id = order[j];
        ids.push(CharId(id));
        match map.get(&id) {
            Some(c) => {
                text_chars.push(*c);
            },
            None => {
                text_chars.push(' ');
            },
        }
        j = j + 1;
        assert(ids@ =~= lo.take(j as int).map_values(|i: u64| CharId(i)));
        assert(text_chars@ =~= lo.take(j as int).map_values(|i: u64| char_of(cs@, i)));
    }
    assert(lo.take(j as int) =~= lo);
    let text = string_of(text_chars.as_slice());
    (ids, text)
}

impl TextEngine {
    /// Lays the text out again from the shared sets: the characters in the
    /// order the edges give (see `linearize`), leaving out those that the
    /// edits and the undone groups make gone. Returns the values that are
    /// gone, for the meta data.
    pub fn rebuild(&mut self) -> (gone_vals: Vec<ValueId>)
        requires
            old(self).wf(),
        ensures
            final(self).wf(),
            final(self).char_set() == old(self).char_set(),
            final(self).edge_set() == old(self).edge_set(),
            final(self).edit_set() == old(self).edit_set(),
            final(self).undone_set() == old(self).undone_set(),
            final(self).undo_history() == old(self).undo_history(),
            final(self).settled() == old(self).settled(),
            final(self).session() == old(self).session(),
            final(self).char_orswot() == old(self).char_orswot(),
            final(self).edge_orswot() == old(self).edge_orswot(),
            final(self).edit_orswot() == old(self).edit_orswot(),
            final(self).undone_orswot() == old(self).undone_orswot(),
            rebuilt_from(
                final(self).ids(),
                final(self).chars(),
                gone_vals@,
                old(self).ids(),
                old(self).chars(),
                old(self).char_set(),
                old(self).edge_set(),
                old(self).edit_set(),
                old(self).undone_set(),
            ),
    {
        let cs = chars_read(&self.chars);
        let es = edges_read(&self.char_edges);
        let eds = edits_read(&self.edits);
        let us = undone_read(&self.undone);
        let gone_vals = gone_values_of(eds.as_slice(), us.as_slice());
        if cs.len() > usize::MAX - es.len() {
            assert(rebuilt_by(self.ids(), self.chars(), gone_vals@, self.ids(), self.chars(), self.char_set(), self.edge_set(), self.edit_set(), self.undone_set(), cs@, es@, eds@, us@));
            assert(rebuilt_from(self.ids(), self.chars(), gone_vals@, self.ids(), self.chars(), self.char_set(), self.edge_set(), self.edit_set(), self.undone_set()));
            return gone_vals;
        }
        let (ids, text) = lay_out(cs.as_slice(), es.as_slice(), eds.as_slice(), us.as_slice());
        match TextState::from_parts(text, ids) {
            Some(t) => {
                self.text = t;
            },
            None => {
                assert(false);
            },
        }
        assert(laid_out(self.ids(), self.chars(), cs@, es@, eds@, us@));
        assert(rebuilt_by(self.ids(), self.chars(), gone_vals@, old(self).ids(), old(self).chars(), self.char_set(), self.edge_set(), self.edit_set(), self.undone_set(), cs@, es@, eds@, us@));
        gone_vals
    }
}


impl TextEngine {
    /// Undoes the last group of the history: the group goes into the shared
    /// set of undone groups and the text is laid out again. `None`,
    /// changing nothing, where there is nothing to undo, or where this
    /// session's counter in the set of undone groups is at `u64::MAX` and no
    /// add can be made; else the op to send the other sessions and the
    /// values that are gone.
    pub fn undo(&mut self) -> (r: Option<(Op<u64, u64>, Vec<ValueId>)>)
        requires
            old(self).wf(),
        ensures
            final(self).wf(),
            r is None <==> old(self).undo_history().undo_stack().len() == 0 || old(self).undone_count() == u64::MAX,
            r is None ==> {
                &&& final(self).chars() == old(self).chars()
                &&& final(self).ids() == old(self).ids()
                &&& final(self).undone_set() == old(self).undone_set()
                &&& final(self).settled() == old(self).settled()
                &&& final(self).undo_history().undo_stack() == old(self).undo_history().undo_stack()
                &&& final(self).undo_history().redo_stack() == old(self).undo_history().redo_stack()
            },
            r matches Some((_, gone_vals)) ==> {
                let g = old(self).undo_history().undo_stack().last();
                &&& final(self).undo_history().undo_stack() == old(self).undo_history().undo_stack().drop_last()
                &&& final(self).undo_history().redo_stack() == old(self).undo_history().redo_stack().push(g)
                &&& final(self).undone_set().subset_of(old(self).undone_set().insert(g.0))
                &&& old(self).settled() ==> final(self).settled() && final(self).undone_set() == old(
                    self,
                ).undone_set().insert(g.0)
                &&& final(self).char_set() == old(self).char_set()
                &&& final(self).edge_set() == old(self).edge_set()
                &&& final(self).edit_set() == old(self).edit_set()
                &&& rebuilt_from(
                    final(self).ids(),
                    final(self).chars(),
                    gone_vals@,
                    old(self).ids(),
                    old(self).chars(),
                    old(self).char_set(),
                    old(self).edge_set(),
                    old(self).edit_set(),
                    final(self).undone_set(),
                )
            },
    {
        if undone_counter(&self.undone, self.id.0) == u64::MAX {
            return None;
        }
        match self.history.undo() {
            None => None,
            Some(g) => {
                let op = undone_add(&mut self.undone, g.0, self.id.0);
                let gone_vals = self.rebuild();
                Some((op, gone_vals))
            },
        }
    }

    /// Redoes the last undone group of the history: the group leaves the
    /// shared set of undone groups and the text is laid out again. `None`,
    /// changing nothing, where there is nothing to redo; else the op to
    /// send the other sessions and the values that are gone.
    pub fn redo(&mut self) -> (r: Option<(Op<u64, u64>, Vec<ValueId>)>)
        requires
            old(self).wf(),
        ensures
            final(self).wf(),
            r is None <==> old(self).undo_history().redo_stack().len() == 0,
            r is None ==> {
                &&& final(self).chars() == old(self).chars()
                &&& final(self).ids() == old(self).ids()
                &&& final(self).undone_set() == old(self).undone_set()
                &&& final(self).settled() == old(self).settled()
                &&& final(self).undo_history().undo_stack() == old(self).undo_history().undo_stack()
                &&& final(self).undo_history().redo_stack() == old(self).undo_history().redo_stack()
            },
            r matches Some((_, gone_vals)) ==> {
                let g = old(self).undo_history().redo_stack().last();
                &&& final(self).undo_history().redo_stack() == old(self).undo_history().redo_stack().drop_last()
                &&& final(self).undo_history().undo_stack() == old(self).undo_history().undo_stack().push(g)
                &&& final(self).undone_set() == old(self).undone_set().remove(g.0)
                &&& final(self).settled() == old(self).settled()
                &&& final(self).char_set() == old(self).char_set()
                &&& final(self).edge_set() == old(self).edge_set()
                &&& final(self).edit_set() == old(self).edit_set()
                &&& rebuilt_from(
                    final(self).ids(),
                    final(self).chars(),
                    gone_vals@,
                    old(self).ids(),
                    old(self).chars(),
                    old(self).char_set(),
                    old(self).edge_set(),
                    old(self).edit_set(),
                    final(self).undone_set(),
                )
            },
    {
        match self.history.redo() {
            None => None,
            Some(g) => {
                let op = undone_rm(&mut self.undone, g.0);
                let gone_vals = self.rebuild();
                Some((op, gone_vals))
            },
        }
    }

    /// Takes in the ops of another session's edit and lays the text out
    /// again; returns the values that are gone. No counter of this session
    /// goes down.
    pub fn apply_patch(&mut self, patch: TextPatch) -> (gone_vals: Vec<ValueId>)
        requires
            old(self).wf(),
        ensures
            final(self).wf(),
            final(self).undo_history() == old(self).undo_history(),
            final(self).undone_set() == old(self).undone_set(),
            final(self).char_set() == chars_after_ops(old(self).char_orswot(), patch.chars@),
            final(self).edge_set() == edges_after_ops(old(self).edge_orswot(), patch.char_edges@),
            final(self).edit_set() == edits_after_ops(old(self).edit_orswot(), patch.edits@),
            final(self).session() == old(self).session(),
            final(self).char_count() >= old(self).char_count(),
            final(self).edge_count() >= old(self).edge_count(),
            final(self).edit_count() >= old(self).edit_count(),
            final(self).undone_count() == old(self).undone_count(),
            rebuilt_from(
                final(self).ids(),
                final(self).chars(),
                gone_vals@,
                old(self).ids(),
                old(self).chars(),
                final(self).char_set(),
                final(self).edge_set(),
                final(self).edit_set(),
                final(self).undone_set(),
            ),
    {
        let TextPatch { chars, char_edges, edits } = patch;
        chars_apply(&mut self.chars, chars);
        edges_apply(&mut self.char_edges, char_edges);
        edits_apply(&mut self.edits, edits);
        self.rebuild()
    }

    /// Takes in another session's undo or redo and lays the text out
    /// again; returns the values that are gone. No counter of this session
    /// goes down.
    pub fn apply_undone(&mut self, op: Op<u64, u64>) -> (gone_vals: Vec<ValueId>)
        requires
            old(self).wf(),
        ensures
            final(self).wf(),
            final(self).undo_history() == old(self).undo_history(),
            final(self).char_set() == old(self).char_set(),
            final(self).edge_set() == old(self).edge_set(),
            final(self).edit_set() == old(self).edit_set(),
            final(self).undone_set() == undone_after_ops(old(self).undone_orswot(), seq![op]),
            final(self).session() == old(self).session(),
            final(self).char_count() == old(self).char_count(),
            final(self).edge_count() == old(self).edge_count(),
            final(self).edit_count() == old(self).edit_count(),
            final(self).undone_count() >= old(self).undone_count(),
            rebuilt_from(
                final(self).ids(),
                final(self).chars(),
                gone_vals@,
                old(self).ids(),
                old(self).chars(),
                final(self).char_set(),
                final(self).edge_set(),
                final(self).edit_set(),
                final(self).undone_set(),
            ),
    {
        let ghost o = op;
        let ops = vec![op];
        assert(ops@ =~= seq![o]);
        undone_apply(&mut self.undone, ops);
        self.rebuild()
    }

    /// Takes in the shared sets of another session and lays the text out
    /// again; returns the values that are gone. Each counter of this
    /// session becomes the greater of its own and the other session's
    /// counter for it.
    pub fn merge(&mut self, other: TextEngine) -> (gone_vals: Vec<ValueId>)
        requires
            old(self).wf(),
        ensures
            final(self).wf(),
            final(self).undo_history() == old(self).undo_history(),
            final(self).char_set() == chars_after_merge(old(self).char_orswot(), other.char_orswot()),
            final(self).edge_set() == edges_after_merge(old(self).edge_orswot(), other.edge_orswot()),
            final(self).edit_set() == edits_after_merge(old(self).edit_orswot(), other.edit_orswot()),
            final(self).undone_set() == undone_after_merge(old(self).undone_orswot(), other.undone_orswot()),
            final(self).session() == old(self).session(),
            final(self).char_count() == higher(old(self).char_count(), chars_clock(other.char_orswot(), old(self).session().0)),
            final(self).edge_count() == higher(old(self).edge_count(), edges_clock(other.edge_orswot(), old(self).session().0)),
            final(self).edit_count() == higher(old(self).edit_count(), edits_clock(other.edit_orswot(), old(self).session().0)),
            final(self).undone_count() == higher(
                old(self).undone_count(),
                undone_clock(other.undone_orswot(), old(self).session().0),
            ),
            rebuilt_from(
                final(self).ids(),
                final(self).chars(),
                gone_vals@,
                old(self).ids(),
                old(self).chars(),
                final(self).char_set(),
                final(self).edge_set(),
                final(self).edit_set(),
                final(self).undone_set(),
            ),
    {
        let TextEngine { chars, char_edges, edits, undone, .. } = other;
        chars_merge(&mut self.chars, chars);
        edits_merge(&mut self.edits, edits);
        edges_merge(&mut self.char_edges, char_edges);
        undone_merge(&mut self.undone, undone);
        self.rebuild()
    }
}

} // verus!

