//! Identifiers, edits and the local bookkeeping of the collaborative text
//! engine: the text and the id of each of its characters kept in step,
//! fresh ids, the edges that thread new characters into the text, and the
//! undo and redo history.
use crate::text::string_of;
use ropey::Rope;
use vstd::prelude::*;

verus! {

/// Identifies a character across sessions.
#[derive(Clone, Copy, Debug, Hash, PartialEq, Eq, Structural, PartialOrd, Ord)]
pub struct CharId(pub u64);

/// Identifies a key-value assignment across sessions.
#[derive(Clone, Copy, Debug, Hash, PartialEq, Eq, Structural, PartialOrd, Ord)]
pub struct ValueId(pub u64);

/// Identifies a group of edits that undo and redo together.
#[derive(Clone, Copy, Debug, Hash, PartialEq, Eq, Structural, PartialOrd)]
pub struct UndoGroupId(pub u64);

/// Identifies an editing session.
#[derive(Clone, Copy, Debug, Hash, PartialEq, Eq, Structural, PartialOrd, Ord)]
pub struct SessionId(pub u64);

/// The id that stands for the position before the first character.
pub const START_ID: u64 = 0;

/// The id that stands for the position after the last character.
pub const END_ID: u64 = 1;

/// The id that no assignment takes.
pub const FIRST_ID: u64 = 0;

/// What one undo group changed.
#[derive(Clone, Debug, Hash, PartialEq, Eq)]
pub struct Edit {
    pub undo_group: UndoGroupId,
    pub char_inserts: Vec<CharId>,
    pub char_deletes: Vec<CharId>,
    pub value_inserts: Vec<ValueId>,
    pub value_deletes: Vec<ValueId>,
}

impl Edit {
    /// An edit of `undo_group` that changes nothing yet.
    pub fn new(undo_group: UndoGroupId) -> (r: Self)
        ensures
            r.undo_group == undo_group,
            r.char_inserts@.len() == 0,
            r.char_deletes@.len() == 0,
            r.value_inserts@.len() == 0,
            r.value_deletes@.len() == 0,
    {
        Edit {
            undo_group,
            char_inserts: Vec::new(),
            char_deletes: Vec::new(),
            value_inserts: Vec::new(),
            value_deletes: Vec::new(),
        }
    }

    /// Whether the edit changes nothing.
    pub fn is_empty(&self) -> (r: bool)
        ensures
            r == (self.char_inserts@.len() == 0 && self.char_deletes@.len() == 0
                && self.value_inserts@.len() == 0 && self.value_deletes@.len() == 0),
    {
        self.char_inserts.len() == 0 && self.char_deletes.len() == 0 && self.value_inserts.len() == 0
            && self.value_deletes.len() == 0
    }
}

/// A change to the meta data.
pub enum ValueOp<K, V> {
    Assign(K, V),
    Remove(K),
}

/// A change requested by a session: text replaced in a range of character
/// positions, or a change to the meta data. A change of `color` starts a
/// new undo group.
pub enum Delta<K, V> {
    Text { range: (usize, usize), new_text: String, color: u64 },
    Value { op: ValueOp<K, V>, color: u64 },
}

/// `rand::random::<u64>`: any number.
#[verifier::external_body]
fn random_u64() -> u64 {
    rand::random::<u64>()
}

impl SessionId {
    /// A random session id.
    pub fn generate() -> Self {
        SessionId(random_u64())
    }
}

impl UndoGroupId {
    /// A random undo group id.
    pub fn generate() -> Self {
        UndoGroupId(random_u64())
    }
}

impl CharId {
    /// A random character id, neither `CharId(START_ID)` nor `CharId(END_ID)`: drawn again while
    /// it is one of them. (After 2^64 - 1 unlucky draws, which no run
    /// reaches, the id 2.)
    pub fn generate() -> (r: Self)
        ensures
            r != CharId(START_ID) && r != CharId(END_ID),
    {
        let mut tries: u64 = 0;
        while tries < u64::MAX
            decreases u64::MAX - tries,
        {
            let id = random_u64();
            if id != START_ID && id != END_ID {
                return CharId(id);
            }
            tries = tries + 1;
        }
        CharId(2)
    }
}

impl ValueId {
    /// A random value id, not `ValueId(FIRST_ID)`: drawn again while it is. (After 2^64
    /// - 1 unlucky draws, which no run reaches, the id 1.)
    pub fn generate() -> (r: Self)
        ensures
            r != ValueId(FIRST_ID),
    {
        let mut tries: u64 = 0;
        while tries < u64::MAX
            decreases u64::MAX - tries,
        {
            let id = random_u64();
            if id != FIRST_ID {
                return ValueId(id);
            }
            tries = tries + 1;
        }
        ValueId(1)
    }
}

#[verifier::external_type_specification]
#[verifier::external_body]
pub struct ExRope(Rope);

/// The characters of a rope.
pub uninterp spec fn rope_chars(r: Rope) -> Seq<char>;

/// `Rope::new`: no text.
#[verifier::external_body]
fn rope_new() -> (r: Rope)
    ensures
        rope_chars(r) == Seq::<char>::empty(),
{
    Rope::new()
}

/// `Rope::from` a `String`: its characters.
#[verifier::external_body]
fn rope_from(text: String) -> (r: Rope)
    ensures
        rope_chars(r) == text@,
{
    Rope::from(text)
}

/// `Rope::remove` of the characters `start..end`.
#[verifier::external_body]
fn rope_remove(r: &mut Rope, start: usize, end: usize)
    requires
        start <= end <= rope_chars(*old(r)).len(),
    ensures
        rope_chars(*final(r)) == rope_chars(*old(r)).take(start as int) + rope_chars(*old(r)).skip(end as int),
{
    r.remove(start..end)
}

/// `Rope::insert` of `text` before the character at `at`.
#[verifier::external_body]
fn rope_insert(r: &mut Rope, at: usize, text: &str)
    requires
        at <= rope_chars(*old(r)).len(),
    ensures
        rope_chars(*final(r)) == rope_chars(*old(r)).take(at as int) + text@ + rope_chars(*old(r)).skip(at as int),
{
    r.insert(at, text)
}

/// `Rope::len_chars`: how many characters it holds.
#[verifier::external_body]
fn rope_len(r: &Rope) -> (n: usize)
    ensures
        n == rope_chars(*r).len(),
{
    r.len_chars()
}

/// What replacing a range of the text changed: the ids of the characters
/// removed, those of the characters put in, and the ids on either side
/// (`CharId(START_ID)` and `CharId(END_ID)` at the ends of the text).
pub struct Replacement {
    pub deleted: Vec<CharId>,
    pub inserted: Vec<CharId>,
    pub before: CharId,
    pub after: CharId,
}

/// The text of a session and the id of each of its characters, in step.
pub struct TextState {
    text: Rope,
    ids: Vec<CharId>,
}

impl TextState {
    /// The characters of the text.
    pub closed spec fn chars(&self) -> Seq<char> {
        rope_chars(self.text)
    }

    /// The id of each character.
    pub closed spec fn spec_ids(&self) -> Seq<CharId> {
        self.ids@
    }

    /// The text has exactly one id per character.
    pub closed spec fn wf(&self) -> bool {
        rope_chars(self.text).len() == self.ids@.len()
    }

    /// A well-formed text has as many ids as characters.
    pub proof fn lemma_wf_lengths(&self)
        requires
            self.wf(),
        ensures
            self.chars().len() == self.spec_ids().len(),
    {
    }

    /// No text.
    pub fn new() -> (r: Self)
        ensures
            r.wf(),
            r.chars() == Seq::<char>::empty(),
            r.spec_ids() == Seq::<CharId>::empty(),
    {
        TextState { text: rope_new(), ids: Vec::new() }
    }

    /// The text `text`, with ids `ids`.
    pub fn from_parts(text: String, ids: Vec<CharId>) -> (r: Option<Self>)
        ensures
            r is Some <==> text@.len() == ids@.len(),
            r matches Some(t) ==> t.wf() && t.chars() == text@ && t.spec_ids() == ids@,
    {
        let rope = rope_from(text);
        if rope_len(&rope) != ids.len() {
            return None;
        }
        Some(TextState { text: rope, ids })
    }

    /// The text.
    pub fn text(&self) -> (r: &Rope)
        ensures
            rope_chars(*r) == self.chars(),
    {
        &self.text
    }

    /// How many characters the text holds.
    pub fn len(&self) -> (n: usize)
        requires
            self.wf(),
        ensures
            n == self.chars().len(),
    {
        self.ids.len()
    }

    /// The id of each character.
    pub fn ids(&self) -> (r: &Vec<CharId>)
        ensures
            r@ == self.spec_ids(),
    {
        &self.ids
    }

    /// Replaces the characters `start..end` with `new_text`, each new
    /// character with a fresh id.
    pub fn replace(&mut self, start: usize, end: usize, new_text: &str) -> (r: Replacement)
        requires
            old(self).wf(),
            start <= end <= old(self).chars().len(),
        ensures
            final(self).wf(),
            final(self).chars() == old(self).chars().take(start as int) + new_text@ + old(self).chars().skip(end as int),
            final(self).spec_ids() == old(self).spec_ids().take(start as int) + r.inserted@ + old(self).spec_ids().skip(
                end as int,
            ),
            r.deleted@ == old(self).spec_ids().subrange(start as int, end as int),
            r.inserted@.len() == new_text@.len(),
            forall|k: int| 0 <= k < r.inserted@.len() ==> #[trigger] r.inserted@[k] != CharId(START_ID) && r.inserted@[k] != CharId(END_ID),
            r.before == (if start > 0 {
                old(self).spec_ids()[start - 1]
            } else {
                CharId(START_ID)
            }),
            r.after == (if end < old(self).spec_ids().len() {
                old(self).spec_ids()[end as int]
            } else {
                CharId(END_ID)
            }),
    {
        let ghost old_ids = self.ids@;
        let ghost old_chars = rope_chars(self.text);
        rope_remove(&mut self.text, start, end);
        rope_insert(&mut self.text, start, new_text);
        assert(rope_chars(self.text) =~= old_chars.take(start as int) + new_text@ + old_chars.skip(end as int));
        let n = crate::text::chars_of(new_text).len();
        let mut inserted: Vec<CharId> = Vec::new();
        let mut k: usize = 0;
        while k < n
            invariant
                k <= n,
                inserted@.len() == k,
                forall|j: int| 0 <= j < k ==> #[trigger] inserted@[j] != CharId(START_ID) && inserted@[j] != CharId(END_ID),
            decreases n - k,
        {
            inserted.push(CharId::generate());
            k = k + 1;
        }
        let before = if start > 0 {
            self.ids[start - 1]
        } else {
            CharId(START_ID)
        };
        let after = if end < self.ids.len() {
            self.ids[end]
        } else {
            CharId(END_ID)
        };
        let mut ids: Vec<CharId> = Vec::new();
        let mut deleted: Vec<CharId> = Vec::new();
        let mut i: usize = 0;
        while i < start
            invariant
                i <= start <= end <= old_ids.len(),
                self.ids@ == old_ids,
                ids@ == old_ids.take(i as int),
            decreases start - i,
        {
            ids.push(self.ids[i]);
            i = i + 1;
            assert(ids@ =~= old_ids.take(i as int));
        }
        while i < end
            invariant
                start <= i <= end <= old_ids.len(),
                self.ids@ == old_ids,
                ids@ == old_ids.take(start as int),
                deleted@ == old_ids.subrange(start as int, i as int),
            decreases end - i,
        {
            deleted.push(self.ids[i]);
            i = i + 1;
            assert(deleted@ =~= old_ids.subrange(start as int, i as int));
        }
        let mut j: usize = 0;
        while j < inserted.len()
            invariant
                j <= inserted@.len(),
                ids@ == old_ids.take(start as int) + inserted@.take(j as int),
            decreases inserted@.len() - j,
        {
            ids.push(inserted[j]);
            j = j + 1;
            assert(ids@ =~= old_ids.take(start as int) + inserted@.take(j as int));
        }
        assert(inserted@.take(j as int) =~= inserted@);
        while i < self.ids.len()
            invariant
                end <= i <= old_ids.len(),
                self.ids@ == old_ids,
                ids@ == old_ids.take(start as int) + inserted@ + old_ids.subrange(end as int, i as int),
            decreases old_ids.len() - i,
        {
            ids.push(self.ids[i]);
            i = i + 1;
            assert(ids@ =~= old_ids.take(start as int) + inserted@ + old_ids.subrange(end as int, i as int));
        }
        assert(old_ids.subrange(end as int, i as int) =~= old_ids.skip(end as int));
        self.ids = ids;
        Replacement { deleted, inserted, before, after }
    }
}

/// The edges that thread new characters into the text, in order: for each
/// new character, one from the character before it unless that is
/// `CharId(START_ID)`, then one to the character after it unless that is `CharId(END_ID)`.
pub open spec fn thread_edges(before: CharId, ids: Seq<CharId>, after: CharId) -> Seq<(CharId, CharId)>
    decreases ids.len(),
{
    if ids.len() == 0 {
        Seq::empty()
    } else {
        let id = ids[0];
        let next = if ids.len() > 1 {
            ids[1]
        } else {
            after
        };
        (if before != CharId(START_ID) {
            seq![(before, id)]
        } else {
            Seq::empty()
        }) + (if next != CharId(END_ID) {
            seq![(id, next)]
        } else {
            Seq::empty()
        }) + thread_edges(id, ids.drop_first(), after)
    }
}

/// The edges that thread the characters `ids`, put in between `before`
/// and `after`, into the text.
pub fn thread(before: CharId, ids: &[CharId], after: CharId) -> (r: Vec<(CharId, CharId)>)
    ensures
        r@ == thread_edges(before, ids@, after),
{
    let mut out: Vec<(CharId, CharId)> = Vec::new();
    let mut previous = before;
    let mut k: usize = 0;
    assert(ids@.skip(0) =~= ids@);
    assert(out@ + thread_edges(before, ids@, after) =~= thread_edges(before, ids@, after));
    while k < ids.len()
        invariant
            k <= ids@.len(),
            k > 0 ==> previous == ids@[k - 1],
            k == 0 ==> previous == before,
            thread_edges(before, ids@, after) == out@ + thread_edges(previous, ids@.skip(k as int), after),
        decreases ids@.len() - k,
    {
        let id = ids[k];
        let next = if k + 1 < ids.len() {
            ids[k + 1]
        } else {
            after
        };
        let ghost before_out = out@;
        let ghost prev_old = previous;
        let ghost rest = ids@.skip(k as int);
        assert(rest[0] == id);
        assert(rest.drop_first() =~= ids@.skip(k + 1));
        assert(rest.len() > 1 ==> rest[1] == ids@[k + 1]);
        let ghost a = if prev_old != CharId(START_ID) {
            seq![(prev_old, id)]
        } else {
            Seq::empty()
        };
        let ghost b = if next != CharId(END_ID) {
            seq![(id, next)]
        } else {
            Seq::empty()
        };
        assert(thread_edges(prev_old, rest, after) == a + b + thread_edges(id, ids@.skip(k + 1), after));
        if previous != CharId(START_ID) {
            out.push((previous, id));
        }
        if next != CharId(END_ID) {
            out.push((id, next));
        }
        assert(out@ =~= before_out + a + b);
        previous = id;
        k = k + 1;
        assert(out@ + thread_edges(previous, ids@.skip(k as int), after) =~= before_out + (a + b + thread_edges(
            id,
            ids@.skip(k as int),
            after,
        )));
    }
    assert(ids@.skip(k as int) =~= Seq::<CharId>::empty());
    out
}

/// The undo and redo history of a session, and the color of its last edit.
pub struct UndoHistory {
    undo_groups: Vec<UndoGroupId>,
    redo_groups: Vec<UndoGroupId>,
    last_color: u64,
}

impl UndoHistory {
    pub closed spec fn undo_stack(&self) -> Seq<UndoGroupId> {
        self.undo_groups@
    }

    pub closed spec fn redo_stack(&self) -> Seq<UndoGroupId> {
        self.redo_groups@
    }

    pub closed spec fn color(&self) -> u64 {
        self.last_color
    }

    /// A history with one open group and color 0.
    pub fn new() -> (r: Self)
        ensures
            r.undo_stack().len() == 1,
            r.redo_stack().len() == 0,
            r.color() == 0,
    {
        let mut undo_groups: Vec<UndoGroupId> = Vec::new();
        undo_groups.push(UndoGroupId::generate());
        UndoHistory { undo_groups, redo_groups: Vec::new(), last_color: 0 }
    }

    /// Starts an edit: what was undone can no longer be redone. Returns the
    /// group the edit joins: the open group, or a fresh one when every
    /// group was undone.
    pub fn begin_edit(&mut self) -> (g: UndoGroupId)
        ensures
            final(self).redo_stack().len() == 0,
            final(self).undo_stack() == old(self).undo_stack(),
            final(self).color() == old(self).color(),
            old(self).undo_stack().len() > 0 ==> g == old(self).undo_stack().last(),
    {
        self.redo_groups.clear();
        match self.undo_groups.last() {
            Some(g) => *g,
            None => UndoGroupId::generate(),
        }
    }

    /// A change of color opens a new group: returns it, or `None` where the
    /// color is that of the last edit.
    pub fn recolor(&mut self, color: u64) -> (r: Option<UndoGroupId>)
        ensures
            r is None <==> color == old(self).color(),
            final(self).color() == color,
            final(self).redo_stack() == old(self).redo_stack(),
            r is None ==> final(self).undo_stack() == old(self).undo_stack(),
            r matches Some(g) ==> final(self).undo_stack() == old(self).undo_stack().push(g),
    {
        if color == self.last_color {
            return None;
        }
        self.last_color = color;
        let g = UndoGroupId::generate();
        self.undo_groups.push(g);
        Some(g)
    }

    /// Undoes the last group: it moves to the redo stack, and the next edit
    /// opens a new group. `None`, changing nothing, when there is nothing
    /// to undo.
    pub fn undo(&mut self) -> (r: Option<UndoGroupId>)
        ensures
            r is None <==> old(self).undo_stack().len() == 0,
            r is None ==> final(self).undo_stack() == old(self).undo_stack() && final(self).redo_stack()
                == old(self).redo_stack() && final(self).color() == old(self).color(),
            r matches Some(g) ==> {
                &&& g == old(self).undo_stack().last()
                &&& final(self).undo_stack() == old(self).undo_stack().drop_last()
                &&& final(self).redo_stack() == old(self).redo_stack().push(g)
                &&& final(self).color() == 0
            },
    {
        match self.undo_groups.pop() {
            Some(g) => {
                self.last_color = 0;
                self.redo_groups.push(g);
                Some(g)
            },
            None => None,
        }
    }

    /// Redoes the last undone group: it moves back to the undo stack, and
    /// the next edit opens a new group. `None`, changing nothing, when
    /// there is nothing to redo.
    pub fn redo(&mut self) -> (r: Option<UndoGroupId>)
        ensures
            r is None <==> old(self).redo_stack().len() == 0,
            r is None ==> final(self).undo_stack() == old(self).undo_stack() && final(self).redo_stack()
                == old(self).redo_stack() && final(self).color() == old(self).color(),
            r matches Some(g) ==> {
                &&& g == old(self).redo_stack().last()
                &&& final(self).redo_stack() == old(self).redo_stack().drop_last()
                &&& final(self).undo_stack() == old(self).undo_stack().push(g)
                &&& final(self).color() == 0
            },
    {
        match self.redo_groups.pop() {
            Some(g) => {
                self.last_color = 0;
                self.undo_groups.push(g);
                Some(g)
            },
            None => None,
        }
    }
}

/// Undoing and then redoing gives back the undo and redo stacks as they
/// were: undo moves the last group `g` of `undo` onto `redo`, and redo
/// moves the last group of the result back.
pub proof fn lemma_undo_redo(undo: Seq<UndoGroupId>, redo: Seq<UndoGroupId>)
    requires
        undo.len() > 0,
    ensures
        ({
            let g = undo.last();
            let (undo1, redo1) = (undo.drop_last(), redo.push(g));
            &&& redo1.last() == g
            &&& undo1.push(redo1.last()) == undo
            &&& redo1.drop_last() == redo
        }),
{
    assert(undo.drop_last().push(undo.last()) =~= undo);
    assert(redo.push(undo.last()).drop_last() =~= redo);
}

impl TextState {
    /// Applies a text delta written against the text as it was before the
    /// deltas of the same edit: its range moves by `shift`, the change of
    /// length that the earlier deltas made, and `shift` takes in this
    /// delta's change. `None`, changing nothing, where the moved range
    /// falls outside the text or the shift leaves the `isize` range.
    pub fn apply_delta(&mut self, shift: &mut isize, range: (usize, usize), new_text: &str) -> (r: Option<Replacement>)
        requires
            old(self).wf(),
        ensures
            final(self).wf(),
            ({
                let start = range.0 + *old(shift);
                let end = range.1 + *old(shift);
                let next = *old(shift) + new_text@.len() - (range.1 - range.0);
                let fits = 0 <= start <= end <= old(self).chars().len() && isize::MIN <= next <= isize::MAX;
                &&& r is Some <==> fits
                &&& r is None ==> *final(self) == *old(self) && *final(shift) == *old(shift)
                &&& r matches Some(rep) ==> {
                    &&& *final(shift) == next
                    &&& final(self).chars() == old(self).chars().take(start) + new_text@ + old(self).chars().skip(end)
                    &&& final(self).spec_ids() == old(self).spec_ids().take(start) + rep.inserted@ + old(self).spec_ids().skip(end)
                    &&& rep.deleted@ == old(self).spec_ids().subrange(start, end)
                    &&& rep.inserted@.len() == new_text@.len()
                    &&& rep.before == (if start > 0 {
                        old(self).spec_ids()[start - 1]
                    } else {
                        CharId(START_ID)
                    })
                    &&& rep.after == (if end < old(self).spec_ids().len() {
                        old(self).spec_ids()[end]
                    } else {
                        CharId(END_ID)
                    })
                }
            }),
    {
        let len = self.ids.len();
        let ghost start = range.0 + *shift;
        let ghost end = range.1 + *shift;
        let s = shift_index(range.0, *shift);
        let e = shift_index(range.1, *shift);
        let (start_u, end_u) = match (s, e) {
            (Some(a), Some(b)) => (a, b),
            _ => {
                return None;
            },
        };
        if start_u > end_u || end_u > len {
            return None;
        }
        let n = crate::text::chars_of(new_text).len();
        let removed = end_u - start_u;
        let grown: i128 = *shift as i128 + n as i128 - removed as i128;
        if grown < isize::MIN as i128 || grown > isize::MAX as i128 {
            return None;
        }
        let rep = self.replace(start_u, end_u, new_text);
        *shift = grown as isize;
        Some(rep)
    }
}

/// `index + shift` where it is a `usize`.
fn shift_index(index: usize, shift: isize) -> (r: Option<usize>)
    ensures
        r matches Some(v) ==> v == index + shift,
        r is None <==> !(0 <= index + shift <= usize::MAX),
{
    let v: i128 = index as i128 + shift as i128;
    if v < 0 || v > usize::MAX as i128 {
        None
    } else {
        Some(v as usize)
    }
}

/// `order` lists the positions `0..keys.len()` once each, by increasing
/// key, positions with equal keys in increasing order.
pub open spec fn stable_order(keys: Seq<usize>, order: Seq<usize>) -> bool {
    &&& order.len() == keys.len()
    &&& forall|i: int| 0 <= i < order.len() ==> #[trigger] order[i] < keys.len()
    &&& forall|i: int, j: int| 0 <= i < j < order.len() ==> #[trigger] order[i] != #[trigger] order[j]
    &&& forall|i: int, j: int|
        0 <= i < j < order.len() ==> keys[#[trigger] order[i] as int] < keys[#[trigger] order[j] as int] || (keys[
            order[i] as int] == keys[order[j] as int] && order[i] < order[j])
}

/// `x` comes before `y` in a stable order of `keys`.
pub open spec fn comes_before(keys: Seq<usize>, x: usize, y: usize) -> bool {
    keys[x as int] < keys[y as int] || (keys[x as int] == keys[y as int] && x < y)
}

/// A stable order lists every position once.
proof fn lemma_stable_covers(keys: Seq<usize>, a: Seq<usize>)
    requires
        stable_order(keys, a),
    ensures
        forall|x: usize| #![trigger a.contains(x)] x < keys.len() ==> a.contains(x),
{
    let n = keys.len() as int;
    let ai = a.map_values(|x: usize| x as int);
    assert(ai.no_duplicates()) by {
        assert forall|i: int, j: int| 0 <= i < ai.len() && 0 <= j < ai.len() && i != j implies ai[i] != ai[j] by {
            if i < j {
                assert(a[i] != a[j]);
            } else {
                assert(a[j] != a[i]);
            }
        }
    }
    ai.unique_seq_to_set();
    vstd::set_lib::lemma_int_range(0, n);
    assert(ai.to_set().subset_of(vstd::set_lib::set_int_range(0, n))) by {
        assert forall|x: int| ai.to_set().contains(x) implies vstd::set_lib::set_int_range(0, n).contains(x) by {
            assert(ai.contains(x));
            let i = choose|i: int| 0 <= i < ai.len() && ai[i] == x;
            assert(a[i] < keys.len());
        }
    }
    vstd::seq_lib::seq_to_set_is_finite(ai);
    vstd::set_lib::lemma_subset_equality(ai.to_set(), vstd::set_lib::set_int_range(0, n));
    assert forall|x: usize| #![trigger a.contains(x)] x < keys.len() implies a.contains(x) by {
        assert(vstd::set_lib::set_int_range(0, n).contains(x as int));
        assert(ai.to_set().contains(x as int));
        assert(ai.contains(x as int));
        let i = choose|i: int| 0 <= i < ai.len() && ai[i] == x as int;
        assert(a[i] == x);
    }
}

/// Two runs that hold the same positions, each in the order `comes_before`
/// gives, are the same run.
proof fn lemma_sorted_runs_equal(keys: Seq<usize>, a: Seq<usize>, b: Seq<usize>)
    requires
        a.len() == b.len(),
        forall|x: usize| a.contains(x) <==> b.contains(x),
        forall|i: int, j: int| 0 <= i < j < a.len() ==> comes_before(keys, #[trigger] a[i], #[trigger] a[j]),
        forall|i: int, j: int| 0 <= i < j < b.len() ==> comes_before(keys, #[trigger] b[i], #[trigger] b[j]),
    ensures
        a == b,
    decreases a.len(),
{
    if a.len() > 0 {
        assert(b.contains(a[0]));
        assert(a.contains(b[0]));
        let j = choose|j: int| 0 <= j < b.len() && b[j] == a[0];
        let i = choose|i: int| 0 <= i < a.len() && a[i] == b[0];
        if a[0] != b[0] {
            assert(j > 0 && i > 0);
            assert(comes_before(keys, b[0], b[j]));
            assert(comes_before(keys, a[0], a[i]));
            assert(false);
        }
        let a1 = a.drop_first();
        let b1 = b.drop_first();
        assert forall|x: usize| a1.contains(x) <==> b1.contains(x) by {
            if a1.contains(x) {
                let k = choose|k: int| 0 <= k < a1.len() && a1[k] == x;
                assert(comes_before(keys, a[0], a[k + 1]));
                assert(b.contains(x));
                let m = choose|m: int| 0 <= m < b.len() && b[m] == x;
                assert(m != 0);
                assert(b1[m - 1] == x);
            }
            if b1.contains(x) {
                let k = choose|k: int| 0 <= k < b1.len() && b1[k] == x;
                assert(comes_before(keys, b[0], b[k + 1]));
                assert(a.contains(x));
                let m = choose|m: int| 0 <= m < a.len() && a[m] == x;
                assert(m != 0);
                assert(a1[m - 1] == x);
            }
        }
        assert forall|i: int, j: int| 0 <= i < j < a1.len() implies comes_before(keys, #[trigger] a1[i], #[trigger] a1[j]) by {
            assert(comes_before(keys, a[i + 1], a[j + 1]));
        }
        assert forall|i: int, j: int| 0 <= i < j < b1.len() implies comes_before(keys, #[trigger] b1[i], #[trigger] b1[j]) by {
            assert(comes_before(keys, b[i + 1], b[j + 1]));
        }
        lemma_sorted_runs_equal(keys, a1, b1);
        assert(a =~= seq![a[0]] + a1);
        assert(b =~= seq![b[0]] + b1);
    }
}

/// The order of an edit's deltas is one: two orders that are both stable
/// for the same keys are the same order.
pub proof fn lemma_stable_order_unique(keys: Seq<usize>, a: Seq<usize>, b: Seq<usize>)
    requires
        stable_order(keys, a),
        stable_order(keys, b),
    ensures
        a == b,
{
    lemma_stable_covers(keys, a);
    lemma_stable_covers(keys, b);
    assert forall|x: usize| a.contains(x) <==> b.contains(x) by {
        if a.contains(x) {
            let i = choose|i: int| 0 <= i < a.len() && a[i] == x;
            assert(a[i] < keys.len());
        }
        if b.contains(x) {
            let i = choose|i: int| 0 <= i < b.len() && b[i] == x;
            assert(b[i] < keys.len());
        }
    }
    assert forall|i: int, j: int| 0 <= i < j < a.len() implies comes_before(keys, #[trigger] a[i], #[trigger] a[j]) by {
        assert(a[i] != a[j]);
    }
    assert forall|i: int, j: int| 0 <= i < j < b.len() implies comes_before(keys, #[trigger] b[i], #[trigger] b[j]) by {
        assert(b[i] != b[j]);
    }
    lemma_sorted_runs_equal(keys, a, b);
}

/// The order in which an edit applies its deltas, given each delta's key
/// (the start of a text delta's range, 0 for a meta data change): by key,
/// deltas with equal keys in the order given.
pub fn delta_order(keys: &[usize]) -> (r: Vec<usize>)
    ensures
        stable_order(keys@, r@),
{
    let mut order: Vec<usize> = Vec::new();
    let mut i: usize = 0;
    while i < keys.len()
        invariant
            i <= keys@.len(),
            order@.len() == i,
            forall|a: int| 0 <= a < order@.len() ==> #[trigger] order@[a] < i,
            forall|a: int, b: int| 0 <= a < b < order@.len() ==> #[trigger] order@[a] != #[trigger] order@[b],
            forall|a: int, b: int|
                0 <= a < b < order@.len() ==> keys@[#[trigger] order@[a] as int] < keys@[#[trigger] order@[b] as int]
                    || (keys@[order@[a] as int] == keys@[order@[b] as int] && order@[a] < order@[b]),
        decreases keys@.len() - i,
    {
        let k = keys[i];
        let mut p = order.len();
        while p > 0 && keys[order[p - 1]] > k
            invariant
                p <= order@.len(),
                order@.len() == i,
                i < keys@.len(),
                k == keys@[i as int],
                forall|a: int| 0 <= a < order@.len() ==> #[trigger] order@[a] < i,
                forall|a: int| p <= a < order@.len() ==> keys@[#[trigger] order@[a] as int] > k,
            decreases p,
        {
            p = p - 1;
        }
        let ghost before = order@;
        order.insert(p, i);
        proof {
            assert forall|a: int| 0 <= a < order@.len() implies #[trigger] order@[a] < i + 1 by {
                if a < p {
                    assert(order@[a] == before[a]);
                } else if a > p {
                    assert(order@[a] == before[a - 1]);
                }
            }
            assert forall|a: int, b: int| 0 <= a < b < order@.len() implies #[trigger] order@[a] != #[trigger] order@[b] by {
                if a != p as int && b != p as int {
                    let a0 = if a < p { a } else { a - 1 };
                    let b0 = if b < p { b } else { b - 1 };
                    assert(order@[a] == before[a0]);
                    assert(order@[b] == before[b0]);
                } else if a == p as int {
                    assert(order@[b] == before[b - 1]);
                } else {
                    assert(order@[a] == before[a]);
                }
            }
            assert forall|a: int, b: int|
                0 <= a < b < order@.len() implies keys@[#[trigger] order@[a] as int] < keys@[#[trigger] order@[b] as int]
                    || (keys@[order@[a] as int] == keys@[order@[b] as int] && order@[a] < order@[b]) by {
                if a != p as int && b != p as int {
                    let a0 = if a < p { a } else { a - 1 };
                    let b0 = if b < p { b } else { b - 1 };
                    assert(order@[a] == before[a0]);
                    assert(order@[b] == before[b0]);
                } else if a == p as int {
                    assert(order@[b] == before[b - 1]);
                    assert(keys@[before[b - 1] as int] > k);
                } else {
                    assert(order@[a] == before[a]);
                    if p > 0 && a < p - 1 {
                        assert(keys@[before[a] as int] < keys@[before[p - 1] as int] || (keys@[before[a] as int]
                            == keys@[before[p - 1] as int] && before[a] < before[p - 1]));
                    }
                }
            }
        }
        i = i + 1;
    }
    order
}

/// The ids that are gone: for each edit, those it inserted where its group
/// is undone, else those it deleted.
pub open spec fn gone_chars(edits: Seq<Edit>, undone: Seq<UndoGroupId>) -> Seq<CharId>
    decreases edits.len(),
{
    if edits.len() == 0 {
        Seq::empty()
    } else {
        let e = edits.last();
        gone_chars(edits.drop_last(), undone) + if undone.contains(e.undo_group) {
            e.char_inserts@
        } else {
            e.char_deletes@
        }
    }
}

/// The value ids that are gone, in the same way.
pub open spec fn gone_values(edits: Seq<Edit>, undone: Seq<UndoGroupId>) -> Seq<ValueId>
    decreases edits.len(),
{
    if edits.len() == 0 {
        Seq::empty()
    } else {
        let e = edits.last();
        gone_values(edits.drop_last(), undone) + if undone.contains(e.undo_group) {
            e.value_inserts@
        } else {
            e.value_deletes@
        }
    }
}

fn group_undone(undone: &[UndoGroupId], g: UndoGroupId) -> (r: bool)
    ensures
        r == undone@.contains(g),
{
    let mut i: usize = 0;
    while i < undone.len()
        invariant
            i <= undone@.len(),
            forall|j: int| 0 <= j < i ==> undone@[j] != g,
        decreases undone@.len() - i,
    {
        if undone[i] == g {
            return true;
        }
        i = i + 1;
    }
    false
}

/// The characters and values that are gone, given the edits and the
/// undone groups.
pub fn gone(edits: &[Edit], undone: &[UndoGroupId]) -> (r: (Vec<CharId>, Vec<ValueId>))
    ensures
        r.0@ == gone_chars(edits@, undone@),
        r.1@ == gone_values(edits@, undone@),
{
    let mut chars: Vec<CharId> = Vec::new();
    let mut values: Vec<ValueId> = Vec::new();
    let mut i: usize = 0;
    while i < edits.len()
        invariant
            i <= edits@.len(),
            chars@ == gone_chars(edits@.take(i as int), undone@),
            values@ == gone_values(edits@.take(i as int), undone@),
        decreases edits@.len() - i,
    {
        let e = &edits[i];
        assert(edits@.take(i + 1).drop_last() =~= edits@.take(i as int));
        let u = group_undone(undone, e.undo_group);
        let (cs, vs) = if u {
            (&e.char_inserts, &e.value_inserts)
        } else {
            (&e.char_deletes, &e.value_deletes)
        };
        let mut k: usize = 0;
        let ghost c0 = chars@;
        while k < cs.len()
            invariant
                k <= cs@.len(),
                chars@ == c0 + cs@.take(k as int),
            decreases cs@.len() - k,
        {
            chars.push(cs[k]);
            k = k + 1;
            assert(chars@ =~= c0 + cs@.take(k as int));
        }
        assert(cs@.take(k as int) =~= cs@);
        let mut k: usize = 0;
        let ghost v0 = values@;
        while k < vs.len()
            invariant
                k <= vs@.len(),
                values@ == v0 + vs@.take(k as int),
            decreases vs@.len() - k,
        {
            values.push(vs[k]);
            k = k + 1;
            assert(values@ =~= v0 + vs@.take(k as int));
        }
        assert(vs@.take(k as int) =~= vs@);
        i = i + 1;
    }
    assert(edits@.take(i as int) =~= edits@);
    (chars, values)
}

} // verus!
