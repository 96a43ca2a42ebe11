//! The index of the help text: each term it defines with its definition,
//! and the terms under each heading.
use crate::text::{chars_of, string_of, trim, trimmed};
use crate::words::{split_fields, split_on};
use regex::Regex;
use vstd::prelude::*;

verus! {

/// The pattern of an item of the help text: its term list, `::`, and its
/// definition.
pub const ITEM_PATTERN: &'static str = r"(?P<term>(\w+(:<\w+>)*(, )*)+)::(?P<definition>.+)";

/// The pattern of a heading line of the help text.
pub const HEADING_PATTERN: &'static str = "=== (?P<heading>.+)";

/// The pattern of the term list of a line of the help text.
pub const TERMS_PATTERN: &'static str = r"(?P<term>(\w+(:<\w+>)*(, )*)+)::";

/// The groups `first` and `second` of each match, in order, of the regular
/// expression `pattern` in `text`; `None` where `pattern` is no valid
/// expression.
pub uninterp spec fn pattern_pairs(pattern: Seq<char>, text: Seq<char>, first: Seq<char>, second: Seq<char>) -> Option<
    Seq<(Seq<char>, Seq<char>)>,
>;

/// The group `group` of the first match of the regular expression `pattern`
/// in `text`, if it matches; `None` where `pattern` is no valid expression.
pub uninterp spec fn pattern_group(pattern: Seq<char>, text: Seq<char>, group: Seq<char>) -> Option<Option<Seq<char>>>;

/// `Regex::new`, then `Regex::captures_iter` over `text`: the groups
/// `first` and `second` of each match, in order (empty where a group did
/// not take part); `None` where `Regex::new` refuses the pattern.
#[verifier::external_body]
fn captures_all(pattern: &str, text: &str, first: &str, second: &str) -> (r: Option<Vec<(String, String)>>)
    ensures
        r is None <==> pattern_pairs(pattern@, text@, first@, second@) is None,
        r matches Some(v) ==> {
            let p = pattern_pairs(pattern@, text@, first@, second@)->Some_0;
            &&& v@.len() == p.len()
            &&& forall|i: int| 0 <= i < v@.len() ==> (#[trigger] v@[i]).0@ == p[i].0 && v@[i].1@ == p[i].1
        },
{
    let re = Regex::new(pattern).ok()?;
    Some(
        re.captures_iter(text)
            .map(|c| {
                (
                    c.name(first).map_or(String::new(), |m| m.as_str().to_string()),
                    c.name(second).map_or(String::new(), |m| m.as_str().to_string()),
                )
            })
            .collect(),
    )
}

/// `Regex::new`, then `Regex::captures` on `text`: the group `group` of the
/// first match (`None` where nothing matches or the group took no part);
/// `None` where `Regex::new` refuses the pattern.
#[verifier::external_body]
fn capture_first(pattern: &str, text: &str, group: &str) -> (r: Option<Option<String>>)
    ensures
        r is None <==> pattern_group(pattern@, text@, group@) is None,
        r matches Some(g) ==> match g {
            Some(s) => pattern_group(pattern@, text@, group@) == Some(Some(s@)),
            None => pattern_group(pattern@, text@, group@) == Some(None::<Seq<char>>),
        },
{
    let re = Regex::new(pattern).ok()?;
    Some(re.captures(text).and_then(|c| c.name(group).map(|m| m.as_str().to_string())))
}

/// The term list and the definition of each item of the help text, in
/// order.
pub open spec fn help_items(text: Seq<char>) -> Seq<(Seq<char>, Seq<char>)> {
    match pattern_pairs(ITEM_PATTERN@, text, "term"@, "definition"@) {
        Some(p) => p,
        None => Seq::empty(),
    }
}

/// The heading of a line, if it is a heading line.
pub open spec fn group_heading(line: Seq<char>) -> Option<Seq<char>> {
    match pattern_group(HEADING_PATTERN@, line, "heading"@) {
        Some(g) => g,
        None => None,
    }
}

/// The term list of a line, if it defines terms.
pub open spec fn line_terms(line: Seq<char>) -> Option<Seq<char>> {
    match pattern_group(TERMS_PATTERN@, line, "term"@) {
        Some(g) => g,
        None => None,
    }
}

fn item_captures(text: &str) -> (r: Vec<(String, String)>)
    ensures
        r@.len() == help_items(text@).len(),
        forall|i: int| 0 <= i < r@.len() ==> (#[trigger] r@[i]).0@ == help_items(text@)[i].0 && r@[i].1@
            == help_items(text@)[i].1,
{
    match captures_all(ITEM_PATTERN, text, "term", "definition") {
        Some(v) => v,
        None => Vec::new(),
    }
}

fn heading_capture(line: &str) -> (r: Option<String>)
    ensures
        r matches Some(h) ==> group_heading(line@) == Some(h@),
        r is None ==> group_heading(line@) is None,
{
    match capture_first(HEADING_PATTERN, line, "heading") {
        Some(g) => g,
        None => None,
    }
}

fn terms_capture(line: &str) -> (r: Option<String>)
    ensures
        r matches Some(t) ==> line_terms(line@) == Some(t@),
        r is None ==> line_terms(line@) is None,
{
    match capture_first(TERMS_PATTERN, line, "term") {
        Some(g) => g,
        None => None,
    }
}

/// The parts of `s` between the separators `, `, as `str::split` gives
/// them. Two separators never overlap, so the last one may be found first.
pub open spec fn split_comma(s: Seq<char>) -> Seq<Seq<char>>
    decreases s.len(),
{
    if s.len() == 0 {
        seq![Seq::empty()]
    } else if s.len() >= 2 && s[s.len() - 2] == ',' && s[s.len() - 1] == ' ' {
        split_comma(s.take(s.len() - 2)).push(Seq::empty())
    } else {
        let parts = split_comma(s.drop_last());
        parts.update(parts.len() - 1, parts.last().push(s.last()))
    }
}

proof fn lemma_split_comma_nonempty(s: Seq<char>)
    ensures
        split_comma(s).len() >= 1,
    decreases s.len(),
{
    if s.len() >= 2 && s[s.len() - 2] == ',' && s[s.len() - 1] == ' ' {
        lemma_split_comma_nonempty(s.take(s.len() - 2));
    } else if s.len() > 0 {
        lemma_split_comma_nonempty(s.drop_last());
    }
}

/// The parts of `s` between the separators `, `.
pub fn split_terms(s: &[char]) -> (r: Vec<Vec<char>>)
    ensures
        r@.len() == split_comma(s@).len(),
        forall|k: int| 0 <= k < r@.len() ==> #[trigger] r@[k]@ == split_comma(s@)[k],
{
    let mut out: Vec<Vec<char>> = Vec::new();
    let mut cur: Vec<char> = Vec::new();
    let mut i: usize = 0;
    let ghost mut done: Seq<Seq<char>> = Seq::empty();
    assert(split_comma(s@.take(0)) =~= seq![Seq::<char>::empty()]);
    while i < s.len()
        invariant
            i <= s@.len(),
            split_comma(s@.take(i as int)) == done.push(cur@),
            out@.len() == done.len(),
            forall|k: int| 0 <= k < done.len() ==> #[trigger] out@[k]@ == done[k],
            i > 0 && i < s@.len() ==> !(s@[i - 1] == ',' && s@[i as int] == ' '),
        decreases s@.len() - i,
    {
        if s[i] == ',' && i + 1 < s.len() && s[i + 1] == ' ' {
            let ghost prefix = s@.take(i + 2);
            assert(prefix.take(prefix.len() - 2) =~= s@.take(i as int));
            let mut part: Vec<char> = Vec::new();
            std::mem::swap(&mut part, &mut cur);
            out.push(part);
            proof {
                done = done.push(part@);
            }
            i = i + 2;
        } else {
            let ghost prefix = s@.take(i + 1);
            assert(prefix.drop_last() =~= s@.take(i as int));
            proof {
                if i > 0 {
                    assert(!(prefix[prefix.len() - 2] == ',' && prefix[prefix.len() - 1] == ' '));
                }
            }
            cur.push(s[i]);
            i = i + 1;
            assert(done.push(cur@) =~= split_comma(prefix));
        }
    }
    assert(s@.take(i as int) =~= s@);
    out.push(cur);
    proof {
        done = done.push(out@[out@.len() - 1]@);
    }
    out
}

/// The index entries of one item of the help text: each of its terms, up
/// to its first `:`, with the definition trimmed.
pub open spec fn item_entries(term: Seq<char>, definition: Seq<char>) -> Seq<(Seq<char>, Seq<char>)> {
    split_comma(term).map_values(|t: Seq<char>| (split_on(t, ':')[0], trimmed(definition)))
}

/// The index entries of the items `items`, in order.
pub open spec fn entries_of(items: Seq<(Seq<char>, Seq<char>)>) -> Seq<(Seq<char>, Seq<char>)>
    decreases items.len(),
{
    if items.len() == 0 {
        Seq::empty()
    } else {
        entries_of(items.drop_last()) + item_entries(items.last().0, items.last().1)
    }
}

/// The characters before the first `:`.
fn before_colon(t: &[char]) -> (r: Vec<char>)
    ensures
        r@ == split_on(t@, ':')[0],
{
    let mut i: usize = 0;
    while i < t.len() && t[i] != ':'
        invariant
            i <= t@.len(),
            forall|j: int| 0 <= j < i ==> t@[j] != ':',
        decreases t@.len() - i,
    {
        i = i + 1;
    }
    proof {
        if i < t@.len() {
            lemma_split_on_first(t@, i as int);
        } else {
            lemma_prefix_first(t@);
            assert(t@.take(i as int) =~= t@);
        }
    }
    let mut v: Vec<char> = Vec::new();
    let mut k: usize = 0;
    while k < i
        invariant
            k <= i <= t@.len(),
            v@ == t@.take(k as int),
        decreases i - k,
    {
        v.push(t[k]);
        k = k + 1;
        assert(v@ =~= t@.take(k as int));
    }
    v
}

/// The first part of a split is what comes before the first separator.
proof fn lemma_split_on_first(s: Seq<char>, i: int)
    requires
        0 <= i < s.len(),
        forall|j: int| 0 <= j < i ==> s[j] != ':',
        s[i] == ':',
    ensures
        split_on(s, ':')[0] == s.take(i),
        split_on(s, ':').len() >= 2,
    decreases s.len(),
{
    if i == s.len() - 1 {
        lemma_prefix_first(s.drop_last());
        assert(s.drop_last() =~= s.take(i));
    } else {
        lemma_split_on_first(s.drop_last(), i);
        assert(s.drop_last().take(i) =~= s.take(i));
    }
}

/// Without a separator, the first part is the whole.
proof fn lemma_prefix_first(s: Seq<char>)
    requires
        forall|j: int| 0 <= j < s.len() ==> s[j] != ':',
    ensures
        split_on(s, ':') == seq![s],
    decreases s.len(),
{
    if s.len() > 0 {
        lemma_prefix_first(s.drop_last());
        assert(s.drop_last().push(s.last()) =~= s);
        assert(split_on(s, ':') =~= seq![s]);
    } else {
        assert(s =~= Seq::<char>::empty());
        assert(split_on(s, ':') =~= seq![s]);
    }
}

/// The index of the help text: each term of each item, up to its first
/// `:`, with the item's definition, trimmed; in the order of the text, a
/// later entry for a term standing over an earlier one: the index map is
/// `entries_map` of the entries.
pub fn get_help(help: &str) -> (r: Vec<(String, String)>)
    ensures
        r@.len() == entries_of(help_items(help@)).len(),
        forall|i: int| 0 <= i < r@.len() ==> (#[trigger] r@[i]).0@ == entries_of(help_items(help@))[i].0 && r@[i].1@
            == entries_of(help_items(help@))[i].1,
        entries_map(pair_views(r@)) == entries_map(entries_of(help_items(help@))),
{
    let items = item_captures(help);
    assert(pair_views(items@) =~= help_items(help@));
    let r = index_items(items.as_slice());
    assert(pair_views(r@) =~= entries_of(help_items(help@)));
    r
}

/// The index as a map from term to definition: where a term has several
/// entries, the last one's definition.
pub open spec fn entries_map(entries: Seq<(Seq<char>, Seq<char>)>) -> Map<Seq<char>, Seq<char>>
    decreases entries.len(),
{
    if entries.len() == 0 {
        Map::empty()
    } else {
        entries_map(entries.drop_last()).insert(entries.last().0, entries.last().1)
    }
}

/// In the index map the terms are those of the entries, and a term's
/// definition is that of its last entry.
pub proof fn lemma_entries_map_last(entries: Seq<(Seq<char>, Seq<char>)>, i: int)
    requires
        0 <= i < entries.len(),
        forall|j: int| i < j < entries.len() ==> (#[trigger] entries[j]).0 != entries[i].0,
    ensures
        entries_map(entries).contains_key(entries[i].0),
        entries_map(entries)[entries[i].0] == entries[i].1,
    decreases entries.len(),
{
    if i < entries.len() - 1 {
        let rest = entries.drop_last();
        assert forall|j: int| i < j < rest.len() implies (#[trigger] rest[j]).0 != rest[i].0 by {
            assert(rest[j] == entries[j]);
        }
        lemma_entries_map_last(rest, i);
        assert(entries[entries.len() - 1].0 != entries[i].0);
    }
}

/// Only the terms of the entries are in the index map.
pub proof fn lemma_entries_map_keys(entries: Seq<(Seq<char>, Seq<char>)>, term: Seq<char>)
    requires
        entries_map(entries).contains_key(term),
    ensures
        exists|i: int| 0 <= i < entries.len() && (#[trigger] entries[i]).0 == term,
    decreases entries.len(),
{
    if entries.len() > 0 && entries.last().0 != term {
        lemma_entries_map_keys(entries.drop_last(), term);
        let i = choose|i: int| 0 <= i < entries.len() - 1 && (#[trigger] entries.drop_last()[i]).0 == term;
        assert(entries[i] == entries.drop_last()[i]);
    } else if entries.len() > 0 {
        assert(entries[entries.len() - 1].0 == term);
    }
}

/// The views of a list of pairs of strings.
pub open spec fn pair_views(items: Seq<(String, String)>) -> Seq<(Seq<char>, Seq<char>)> {
    items.map_values(|p: (String, String)| (p.0@, p.1@))
}

/// The index entries of the items of a help text, each a term list and a
/// definition: each term, up to its first `:`, with the definition trimmed,
/// in order.
pub fn index_items(items: &[(String, String)]) -> (r: Vec<(String, String)>)
    ensures
        r@.len() == entries_of(pair_views(items@)).len(),
        forall|i: int| 0 <= i < r@.len() ==> (#[trigger] r@[i]).0@ == entries_of(pair_views(items@))[i].0 && r@[i].1@
            == entries_of(pair_views(items@))[i].1,
{
    let ghost all = pair_views(items@);
    let mut out: Vec<(String, String)> = Vec::new();
    let mut i: usize = 0;
    while i < items.len()
        invariant
            i <= items@.len(),
            items@.len() == all.len(),
            forall|j: int| 0 <= j < items@.len() ==> (#[trigger] items@[j]).0@ == all[j].0 && items@[j].1@ == all[j].1,
            out@.len() == entries_of(all.take(i as int)).len(),
            forall|j: int| 0 <= j < out@.len() ==> (#[trigger] out@[j]).0@ == entries_of(all.take(i as int))[j].0
                && out@[j].1@ == entries_of(all.take(i as int))[j].1,
        decreases items@.len() - i,
    {
        let (term, definition) = &items[i];
        let def = trim(chars_of(definition.as_str()).as_slice());
        let terms = split_terms(chars_of(term.as_str()).as_slice());
        let ghost before = out@;
        let ghost es = item_entries(all[i as int].0, all[i as int].1);
        assert(all.take(i + 1).drop_last() =~= all.take(i as int));
        let mut k: usize = 0;
        while k < terms.len()
            invariant
                k <= terms@.len(),
                terms@.len() == es.len(),
                forall|m: int| 0 <= m < terms@.len() ==> #[trigger] terms@[m]@ == split_comma(all[i as int].0)[m],
                es == item_entries(all[i as int].0, all[i as int].1),
                def@ == trimmed(all[i as int].1),
                out@.len() == before.len() + k,
                forall|j: int| 0 <= j < before.len() ==> #[trigger] out@[j] == before[j],
                forall|m: int| 0 <= m < k ==> (#[trigger] out@[before.len() + m]).0@ == es[m].0 && out@[before.len() + m].1@ == es[m].1,
            decreases terms@.len() - k,
        {
            let name = before_colon(terms[k].as_slice());
            out.push((string_of(name.as_slice()), string_of(def.as_slice())));
            k = k + 1;
        }
        i = i + 1;
        proof {
            let e = entries_of(all.take(i as int));
            let p = entries_of(all.take(i - 1));
            assert(all.take(i as int).last() == all[i - 1]);
            assert(e == p + es);
            assert forall|j: int| 0 <= j < out@.len() implies (#[trigger] out@[j]).0@ == e[j].0 && out@[j].1@ == e[j].1 by {
                if j < before.len() {
                    assert(out@[j] == before[j]);
                } else {
                    let m = j - before.len();
                    assert(out@[before.len() + m] == out@[j]);
                }
            }
        }
    }
    assert(all.take(i as int) =~= all);
    out
}

/// A group of terms under a heading.
pub type GroupView = (Seq<char>, Seq<Seq<char>>);

/// What the patterns find on a line: its heading, its term list.
pub type LineView = (Option<Seq<char>>, Option<Seq<char>>);

/// The groups closed and the group open after lines on which the patterns
/// found `lines`: a heading closes the open group and opens its own; a
/// line of terms adds them, split at `, `, to the open group; terms before
/// the first heading belong to none.
pub open spec fn groups_of(lines: Seq<LineView>) -> (Seq<GroupView>, Option<GroupView>)
    decreases lines.len(),
{
    if lines.len() == 0 {
        (Seq::empty(), None)
    } else {
        let (done, cur) = groups_of(lines.drop_last());
        let (heading, terms) = lines.last();
        match heading {
            Some(h) => (
                match cur {
                    Some(g) => done.push(g),
                    None => done,
                },
                Some((h, Seq::empty())),
            ),
            None => match (terms, cur) {
                (Some(t), Some(g)) => (done, Some((g.0, g.1 + split_comma(t)))),
                _ => (done, cur),
            },
        }
    }
}

/// What the patterns find on each line of the help text.
pub open spec fn line_views(help: Seq<char>) -> Seq<LineView> {
    split_on(help, '\n').map_values(|l: Seq<char>| (group_heading(l), line_terms(l)))
}

/// The groups of terms of the help text, one per heading, its terms in the
/// order of the text: every group that a later heading closes.
pub open spec fn op_groups(help: Seq<char>) -> Seq<GroupView> {
    groups_of(line_views(help)).0
}

/// The view of a group.
pub open spec fn group_view(g: (String, Vec<String>)) -> GroupView {
    (g.0@, g.1@.map_values(|t: String| t@))
}

/// The view of what the patterns found on a line.
pub open spec fn line_view(l: (Option<String>, Option<String>)) -> LineView {
    (
        match l.0 {
            Some(h) => Some(h@),
            None => None,
        },
        match l.1 {
            Some(t) => Some(t@),
            None => None,
        },
    )
}

/// The groups of terms of the help text: under each heading (`=== name`),
/// the terms of the lines that define terms, up to the next heading; the
/// group of the last heading is not closed by any and is left out.
pub fn get_op_groups(help: &str) -> (r: Vec<(String, Vec<String>)>)
    ensures
        r@.map_values(|g: (String, Vec<String>)| group_view(g)) == op_groups(help@),
{
    let lines = split_fields(help, '\n');
    let ghost ls = split_on(help@, '\n');
    let mut found: Vec<(Option<String>, Option<String>)> = Vec::new();
    let mut i: usize = 0;
    while i < lines.len()
        invariant
            i <= lines@.len(),
            lines@.len() == ls.len(),
            forall|k: int| 0 <= k < lines@.len() ==> #[trigger] lines@[k]@ == ls[k],
            found@.len() == i,
            forall|k: int| 0 <= k < i ==> line_view(#[trigger] found@[k]) == (group_heading(ls[k]), line_terms(ls[k])),
        decreases lines@.len() - i,
    {
        let line = lines[i].as_str();
        let h = heading_capture(line);
        let t = terms_capture(line);
        found.push((h, t));
        i = i + 1;
    }
    assert(found@.map_values(|l: (Option<String>, Option<String>)| line_view(l)) =~= line_views(help@));
    group_lines(found.as_slice())
}

/// The groups of terms of a help text, given what the patterns found on
/// each of its lines: see `groups_of`.
pub fn group_lines(lines: &[(Option<String>, Option<String>)]) -> (r: Vec<(String, Vec<String>)>)
    ensures
        r@.map_values(|g: (String, Vec<String>)| group_view(g)) == groups_of(
            lines@.map_values(|l: (Option<String>, Option<String>)| line_view(l)),
        ).0,
{
    let ghost ls = lines@.map_values(|l: (Option<String>, Option<String>)| line_view(l));
    let mut out: Vec<(String, Vec<String>)> = Vec::new();
    let mut cur: Option<(String, Vec<String>)> = None;
    let mut i: usize = 0;
    assert(ls.take(0) =~= Seq::<LineView>::empty());
    while i < lines.len()
        invariant
            i <= lines@.len(),
            ls == lines@.map_values(|l: (Option<String>, Option<String>)| line_view(l)),
            out@.map_values(|g: (String, Vec<String>)| group_view(g)) == groups_of(ls.take(i as int)).0,
            match cur {
                Some(g) => groups_of(ls.take(i as int)).1 == Some(group_view(g)),
                None => groups_of(ls.take(i as int)).1 is None,
            },
        decreases lines@.len() - i,
    {
        assert(ls.take(i + 1).drop_last() =~= ls.take(i as int));
        assert(ls.take(i + 1).last() == ls[i as int]);
        let ghost before = out@;
        match &lines[i].0 {
            Some(h) => {
                let open = cur;
                cur = Some((h.clone(), Vec::new()));
                match open {
                    Some(g) => {
                        out.push(g);
                        assert(out@.map_values(|g: (String, Vec<String>)| group_view(g)) =~= before.map_values(
                            |g: (String, Vec<String>)| group_view(g),
                        ).push(group_view(out@.last())));
                    },
                    None => {},
                }
                proof {
                    let g = cur->Some_0;
                    assert(g.1@.map_values(|t: String| t@) =~= Seq::<Seq<char>>::empty());
                }
            },
            None => {
                match &lines[i].1 {
                    Some(t) => {
                        match cur {
                            Some((name, terms)) => {
                                let mut terms = terms;
                                let ghost old_terms = terms@.map_values(|x: String| x@);
                                let parts = split_terms(chars_of(t.as_str()).as_slice());
                                let mut k: usize = 0;
                                while k < parts.len()
                                    invariant
                                        k <= parts@.len(),
                                        parts@.len() == split_comma(t@).len(),
                                        forall|m: int| 0 <= m < parts@.len() ==> #[trigger] parts@[m]@ == split_comma(t@)[m],
                                        terms@.map_values(|x: String| x@) == old_terms + split_comma(t@).take(k as int),
                                    decreases parts@.len() - k,
                                {
                                    let ghost b = terms@;
                                    let piece = string_of(parts[k].as_slice());
                                    assert(piece@ == split_comma(t@)[k as int]);
                                    terms.push(piece);
                                    assert(terms@.map_values(|x: String| x@) =~= b.map_values(|x: String| x@).push(piece@));
                                    k = k + 1;
                                    assert(split_comma(t@).take(k as int) =~= split_comma(t@).take(k - 1).push(split_comma(t@)[k - 1]));
                                    assert(terms@.map_values(|x: String| x@) =~= old_terms + split_comma(t@).take(k as int));
                                }
                                assert(split_comma(t@).take(k as int) =~= split_comma(t@));
                                cur = Some((name, terms));
                            },
                            None => {
                                cur = None;
                            },
                        }
                    },
                    None => {},
                }
            },
        }
        i = i + 1;
    }
    assert(ls.take(i as int) =~= ls);
    out
}

} // verus!
