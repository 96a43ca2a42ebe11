//! How the words of a program read before an op is chosen for them: the
//! variable sugar (`<name`, `=name`, `>name`), the fields of a word with
//! arguments (`name:first:second`), and the integers among them.
use crate::scale::{decimal_value, is_digit};
use crate::program::{ops_view, TextOp};
use crate::text::{chars_eq, chars_of, string_of};
use vstd::prelude::*;

verus! {

/// The parts of `s` between the separators, as `str::split` gives them.
pub open spec fn split_on(s: Seq<char>, sep: char) -> Seq<Seq<char>>
    decreases s.len(),
{
    if s.len() == 0 {
        seq![Seq::empty()]
    } else {
        let parts = split_on(s.drop_last(), sep);
        if s.last() == sep {
            parts.push(Seq::empty())
        } else {
            parts.update(parts.len() - 1, parts.last().push(s.last()))
        }
    }
}

/// Text without the separator, put after some text, extends its last part.
pub proof fn lemma_split_on_append(p: Seq<char>, y: Seq<char>, sep: char)
    requires
        !y.contains(sep),
    ensures
        split_on(p + y, sep) == split_on(p, sep).update(
            split_on(p, sep).len() - 1,
            split_on(p, sep).last() + y,
        ),
        split_on(p + y, sep).len() == split_on(p, sep).len(),
    decreases y.len(),
{
    lemma_split_on_nonempty(p, sep);
    if y.len() == 0 {
        assert(p + y =~= p);
        assert(split_on(p, sep).last() + y =~= split_on(p, sep).last());
        assert(split_on(p, sep).update(split_on(p, sep).len() - 1, split_on(p, sep).last()) =~= split_on(p, sep));
    } else {
        let y1 = y.drop_last();
        assert(!y1.contains(sep)) by {
            if y1.contains(sep) {
                let k = choose|k: int| 0 <= k < y1.len() && y1[k] == sep;
                assert(y[k] == sep);
            }
        }
        lemma_split_on_append(p, y1, sep);
        assert((p + y).drop_last() =~= p + y1);
        assert((p + y).last() == y.last());
        assert(y[y.len() - 1] != sep);
        let parts = split_on(p, sep);
        assert(parts.last() + y1 + seq![y.last()] =~= parts.last() + y);
        assert((parts.last() + y1).push(y.last()) =~= parts.last() + y);
        assert(split_on(p + y, sep) =~= parts.update(parts.len() - 1, parts.last() + y));
    }
}

/// Two pieces of text without the separator, joined by it, split back into
/// the two.
pub proof fn lemma_split_on_pair(x: Seq<char>, y: Seq<char>, sep: char)
    requires
        !x.contains(sep),
        !y.contains(sep),
    ensures
        split_on(x + seq![sep] + y, sep) == seq![x, y],
{
    lemma_split_on_append(Seq::empty(), x, sep);
    assert(Seq::<char>::empty() + x =~= x);
    assert(split_on(Seq::<char>::empty(), sep) =~= seq![Seq::<char>::empty()]);
    assert(Seq::<char>::empty() + x =~= x);
    assert(split_on(x, sep) =~= seq![x]);
    assert((x + seq![sep]).drop_last() =~= x);
    assert(split_on(x + seq![sep], sep) =~= seq![x, Seq::<char>::empty()]);
    lemma_split_on_append(x + seq![sep], y, sep);
    assert(Seq::<char>::empty() + y =~= y);
    assert(split_on(x + seq![sep] + y, sep) =~= seq![x, y]);
}

pub proof fn lemma_split_on_nonempty(s: Seq<char>, sep: char)
    ensures
        split_on(s, sep).len() >= 1,
    decreases s.len(),
{
    if s.len() > 0 {
        lemma_split_on_nonempty(s.drop_last(), sep);
    }
}

/// The characters `lo..hi` of `a`.
fn copy_range(a: &[char], lo: usize, hi: usize) -> (v: Vec<char>)
    requires
        lo <= hi <= a@.len(),
    ensures
        v@ == a@.subrange(lo as int, hi as int),
{
    let mut v: Vec<char> = Vec::new();
    let mut i = lo;
    while i < hi
        invariant
            lo <= i <= hi,
            hi <= a@.len(),
            v@ == a@.subrange(lo as int, i as int),
        decreases hi - i,
    {
        v.push(a[i]);
        i = i + 1;
        assert(v@ =~= a@.subrange(lo as int, i as int));
    }
    v
}

/// The parts of `s` between the `sep` characters, as `str::split` gives
/// them: one more part than there are separators, some of them empty.
pub fn split_fields(s: &str, sep: char) -> (r: Vec<String>)
    ensures
        r@.len() == split_on(s@, sep).len(),
        forall|k: int| 0 <= k < r@.len() ==> #[trigger] r@[k]@ == split_on(s@, sep)[k],
{
    let text = chars_of(s);
    let mut out: Vec<String> = Vec::new();
    let mut lo: usize = 0;
    let mut i: usize = 0;
    let ghost mut done: Seq<Seq<char>> = Seq::empty();
    assert(split_on(text@.take(0), sep) =~= seq![Seq::<char>::empty()]);
    assert(text@.subrange(0, 0) =~= Seq::<char>::empty());
    assert(done.push(text@.subrange(0, 0)) =~= seq![Seq::<char>::empty()]);
    while i < text.len()
        invariant
            lo <= i <= text@.len(),
            text@ == s@,
            split_on(text@.take(i as int), sep) == done.push(text@.subrange(lo as int, i as int)),
            out@.len() == done.len(),
            forall|k: int| 0 <= k < done.len() ==> #[trigger] out@[k]@ == done[k],
        decreases text@.len() - i,
    {
        let ghost prefix = text@.take(i + 1);
        assert(prefix.drop_last() =~= text@.take(i as int));
        if text[i] == sep {
            let part = copy_range(text.as_slice(), lo, i);
            out.push(string_of(part.as_slice()));
            proof {
                done = done.push(text@.subrange(lo as int, i as int));
            }
            lo = i + 1;
            assert(text@.subrange(lo as int, i + 1) =~= Seq::<char>::empty());
        } else {
            assert(text@.subrange(lo as int, i + 1) =~= text@.subrange(lo as int, i as int).push(text@[i as int]));
        }
        i = i + 1;
    }
    assert(text@.take(text@.len() as int) =~= text@);
    let part = copy_range(text.as_slice(), lo, text.len());
    out.push(string_of(part.as_slice()));
    proof {
        done = done.push(text@.subrange(lo as int, text@.len() as int));
    }
    out
}

/// The `usize` a run of characters denotes: at least one decimal digit and
/// nothing else, within range.
pub open spec fn usize_of_digits(digits: Seq<char>) -> Option<usize> {
    if digits.len() == 0 || exists|i: int| 0 <= i < digits.len() && !is_digit(#[trigger] digits[i]) {
        None
    } else if decimal_value(digits) > usize::MAX {
        None
    } else {
        Some(decimal_value(digits) as usize)
    }
}

/// The `usize` a text denotes as `str::parse` reads it: an optional `+`,
/// then at least one decimal digit and nothing else, within range.
pub open spec fn spec_parse_usize(s: Seq<char>) -> Option<usize> {
    usize_of_digits(
        if s.len() > 0 && s[0] == '+' {
            s.drop_first()
        } else {
            s
        },
    )
}

/// Reads a `usize` as `str::parse` does.
pub fn parse_usize(s: &[char]) -> (r: Option<usize>)
    ensures
        r == spec_parse_usize(s@),
{
    let n = s.len();
    let start: usize = if n > 0 && s[0] == '+' {
        1
    } else {
        0
    };
    let ghost digits = if s@.len() > 0 && s@[0] == '+' {
        s@.drop_first()
    } else {
        s@
    };
    assert(digits =~= s@.subrange(start as int, n as int));
    assert(spec_parse_usize(s@) == usize_of_digits(digits));
    if start == n {
        assert(digits.len() == 0);
        return None;
    }
    let mut acc: usize = 0;
    let mut i = start;
    assert(s@.subrange(start as int, start as int) =~= Seq::<char>::empty());
    while i < n
        invariant
            start <= i <= n,
            n == s@.len(),
            digits == s@.subrange(start as int, n as int),
            digits.len() > 0,
            spec_parse_usize(s@) == usize_of_digits(digits),
            forall|k: int| start <= k < i ==> is_digit(#[trigger] s@[k]),
            acc as int == decimal_value(s@.subrange(start as int, i as int)),
        decreases n - i,
    {
        let c = s[i];
        if !('0' <= c && c <= '9') {
            assert(digits[i - start] == c);
            return None;
        }
        let d = (c as u32 - '0' as u32) as usize;
        assert(s@.subrange(start as int, i + 1).drop_last() =~= s@.subrange(start as int, i as int));
        let next = match acc.checked_mul(10) {
            Some(m) => m.checked_add(d),
            None => None,
        };
        match next {
            Some(v) => {
                acc = v;
            },
            None => {
                proof {
                    if !exists|k: int| 0 <= k < digits.len() && !is_digit(#[trigger] digits[k]) {
                        assert(digits.take(i + 1 - start) =~= s@.subrange(start as int, i + 1));
                        crate::scale::lemma_decimal_bound(s@.subrange(start as int, i as int));
                        crate::scale::lemma_decimal_prefix(digits, (i + 1 - start) as nat);
                    }
                }
                return None;
            },
        }
        i = i + 1;
    }
    assert(s@.subrange(start as int, i as int) =~= digits);
    assert forall|k: int| 0 <= k < digits.len() implies is_digit(#[trigger] digits[k]) by {
        assert(digits[k] == s@[start + k]);
    }
    Some(acc)
}

/// How a variable word uses its variable.
#[derive(Clone, Copy, Debug, PartialEq, Eq, Structural)]
pub enum VarAccess {
    /// `<name`: pushes the variable.
    Read,
    /// `=name`: writes the top frame to it, leaving the frame.
    Write,
    /// `>name`: pops the top frame into it.
    Take,
}

/// The variable a word names with the short forms `<name`, `=name` and
/// `>name` (the name not empty), and how it uses it.
pub open spec fn spec_variable_word(op: Seq<char>) -> Option<(VarAccess, Seq<char>)> {
    if op.len() < 2 {
        None
    } else if op[0] == '<' {
        Some((VarAccess::Read, op.drop_first()))
    } else if op[0] == '=' {
        Some((VarAccess::Write, op.drop_first()))
    } else if op[0] == '>' {
        Some((VarAccess::Take, op.drop_first()))
    } else {
        None
    }
}

/// A short variable word is its sign then a name: `<` reads the variable,
/// `=` writes it and `>` takes the top frame into it; any other first
/// character makes no variable word, and neither does a sign alone.
pub proof fn lemma_variable_signs(sign: char, name: Seq<char>)
    ensures
        name.len() > 0 && sign == '<' ==> spec_variable_word(seq![sign] + name) == Some((VarAccess::Read, name)),
        name.len() > 0 && sign == '=' ==> spec_variable_word(seq![sign] + name) == Some((VarAccess::Write, name)),
        name.len() > 0 && sign == '>' ==> spec_variable_word(seq![sign] + name) == Some((VarAccess::Take, name)),
        sign != '<' && sign != '=' && sign != '>' ==> spec_variable_word(seq![sign] + name) is None,
        spec_variable_word(seq![sign]) is None,
{
    assert((seq![sign] + name).drop_first() =~= name);
    assert((seq![sign] + name)[0] == sign);
}

/// Reads the short forms of the variable words.
pub fn variable_word(op: &str) -> (r: Option<(VarAccess, String)>)
    ensures
        match spec_variable_word(op@) {
            None => r is None,
            Some((access, name)) => r matches Some((a, n)) && a == access && n@ == name,
        },
{
    let text = chars_of(op);
    if text.len() < 2 {
        return None;
    }
    let access = if text[0] == '<' {
        VarAccess::Read
    } else if text[0] == '=' {
        VarAccess::Write
    } else if text[0] == '>' {
        VarAccess::Take
    } else {
        return None;
    };
    let name = copy_range(text.as_slice(), 1, text.len());
    assert(name@ =~= op@.drop_first());
    Some((access, string_of(name.as_slice())))
}

/// `return`, `ret` and `!` end the compiled part of a program: no op after
/// them is compiled.
pub open spec fn is_return_word(op: Seq<char>) -> bool {
    op == seq!['r', 'e', 't', 'u', 'r', 'n'] || op == seq!['r', 'e', 't'] || op == seq!['!']
}

/// Whether the word ends the compiled part of a program.
pub fn ends_program(op: &str) -> (r: bool)
    ensures
        r == is_return_word(op@),
{
    let c = chars_of(op);
    let ret: Vec<char> = vec!['r', 'e', 't'];
    let full: Vec<char> = vec!['r', 'e', 't', 'u', 'r', 'n'];
    let bang: Vec<char> = vec!['!'];
    assert(full@ =~= seq!['r', 'e', 't', 'u', 'r', 'n']);
    assert(ret@ =~= seq!['r', 'e', 't']);
    assert(bang@ =~= seq!['!']);
    chars_eq(c.as_slice(), full.as_slice()) || chars_eq(c.as_slice(), ret.as_slice()) || chars_eq(
        c.as_slice(),
        bang.as_slice(),
    )
}

/// The position of the first op of `ops` that ends the compiled part of the
/// program, if any: the ops before it are compiled, the program returns
/// there.
pub fn return_position(ops: &[TextOp]) -> (r: Option<usize>)
    ensures
        r matches Some(i) ==> i < ops@.len() && is_return_word(ops_view(ops@)[i as int].1) && forall|j: int|
            0 <= j < i ==> !is_return_word(#[trigger] ops_view(ops@)[j].1),
        r is None ==> forall|j: int| 0 <= j < ops@.len() ==> !is_return_word(#[trigger] ops_view(ops@)[j].1),
{
    let mut i: usize = 0;
    while i < ops.len()
        invariant
            i <= ops@.len(),
            forall|j: int| 0 <= j < i ==> !is_return_word(#[trigger] ops_view(ops@)[j].1),
        decreases ops@.len() - i,
    {
        let e = ends_program(ops[i].op.as_str());
        assert(ops_view(ops@)[i as int].1 == ops@[i as int].op@);
        if e {
            return Some(i);
        }
        i = i + 1;
    }
    None
}

} // verus!
