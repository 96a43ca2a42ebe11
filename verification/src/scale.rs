//! Scales for pitch quantisation: a set of semitone offsets within the
//! octave, given as degrees or by name.
use crate::text::{chars_of, trim, trimmed};
use vstd::prelude::*;

verus! {

broadcast use vstd::array::group_array_axioms;

/// The semitones of an octave that a quantiser snaps to.
#[derive(Clone, Debug, PartialEq, Eq)]
pub struct ScaleQuantizer {
    intervals: Vec<i32>,
}

/// Some degree lands on semitone `k` of the octave.
pub open spec fn covers(degrees: Seq<i32>, k: int) -> bool {
    exists|i: int| 0 <= i < degrees.len() && (#[trigger] degrees[i] as int) % 12 == k
}

/// `s` lists, in increasing order and once each, the semitones of the
/// octave that the degrees land on (counted from 0, downwards too).
pub open spec fn is_scale_of(s: Seq<i32>, degrees: Seq<i32>) -> bool {
    &&& forall|i: int, j: int| 0 <= i < j < s.len() ==> #[trigger] s[i] < #[trigger] s[j]
    &&& forall|i: int| 0 <= i < s.len() ==> 0 <= #[trigger] s[i] < 12
    &&& forall|k: int| 0 <= k < 12 ==> (covers(degrees, k) <==> s.contains(k as i32))
}

impl ScaleQuantizer {
    /// The semitones, in increasing order.
    pub closed spec fn spec_intervals(&self) -> Seq<i32> {
        self.intervals@
    }

    /// The scale whose semitones are those the degrees land on; `None` when
    /// no degree is given.
    pub fn new(intervals: &[i32]) -> (r: Option<Self>)
        ensures
            r is Some <==> intervals@.len() > 0,
            r matches Some(q) ==> is_scale_of(q.spec_intervals(), intervals@),
    {
        let mut present: Vec<bool> = Vec::with_capacity(12);
        let mut k: usize = 0;
        while k < 12
            invariant
                k <= 12,
                present@.len() == k,
                forall|j: int| 0 <= j < k ==> !present@[j],
            decreases 12 - k,
        {
            present.push(false);
            k = k + 1;
        }
        let mut i: usize = 0;
        while i < intervals.len()
            invariant
                i <= intervals@.len(),
                present@.len() == 12,
                forall|j: int| 0 <= j < 12 ==> (present@[j] <==> covers(intervals@.take(i as int), j)),
            decreases intervals@.len() - i,
        {
            let r = semitone(intervals[i]);
            present.set(r as usize, true);
            proof {
                assert forall|j: int| 0 <= j < 12 implies (present@[j] <==> covers(intervals@.take(i + 1), j)) by {
                    if covers(intervals@.take(i + 1), j) && j != r {
                        let w = choose|w: int| 0 <= w < i + 1 && (#[trigger] intervals@.take(i + 1)[w] as int) % 12 == j;
                        assert(intervals@.take(i as int)[w] == intervals@[w]);
                    }
                    if present@[j] && j != r {
                        let w = choose|w: int| 0 <= w < i && (#[trigger] intervals@.take(i as int)[w] as int) % 12 == j;
                        assert(intervals@.take(i + 1)[w] == intervals@[w]);
                    }
                    if j == r {
                        assert(intervals@.take(i + 1)[i as int] == intervals@[i as int]);
                    }
                }
            }
            i = i + 1;
        }
        assert(intervals@.take(intervals@.len() as int) =~= intervals@);
        let mut out: Vec<i32> = Vec::new();
        let mut k: usize = 0;
        while k < 12
            invariant
                k <= 12,
                present@.len() == 12,
                forall|j: int| 0 <= j < 12 ==> (present@[j] <==> covers(intervals@, j)),
                forall|a: int, b: int| 0 <= a < b < out@.len() ==> #[trigger] out@[a] < #[trigger] out@[b],
                forall|a: int| 0 <= a < out@.len() ==> 0 <= #[trigger] out@[a] < k,
                forall|j: int| 0 <= j < k ==> (present@[j] <==> out@.contains(j as i32)),
            decreases 12 - k,
        {
            let ghost prev = out@;
            if present[k] {
                out.push(k as i32);
                proof {
                    assert(out@[out@.len() - 1] == k as i32);
                }
            }
            proof {
                assert forall|j: int| 0 <= j < k + 1 implies (present@[j] <==> out@.contains(j as i32)) by {
                    if j < k {
                        if present@[j] {
                            let w = choose|w: int| 0 <= w < prev.len() && #[trigger] prev[w] == j as i32;
                            assert(out@[w] == j as i32);
                        }
                        if out@.contains(j as i32) {
                            let w = choose|w: int| 0 <= w < out@.len() && #[trigger] out@[w] == j as i32;
                            assert(prev.contains(j as i32)) by {
                                assert(w < prev.len());
                                assert(prev[w] == j as i32);
                            }
                        }
                    } else {
                        if out@.contains(j as i32) && !present@[j] {
                            let w = choose|w: int| 0 <= w < out@.len() && #[trigger] out@[w] == j as i32;
                            assert(out@[w] < k);
                        }
                        if present@[j] {
                            assert(out@[out@.len() - 1] == j as i32);
                        }
                    }
                }
            }
            k = k + 1;
        }
        if out.len() == 0 {
            proof {
                if intervals@.len() > 0 {
                    let r = (intervals@[0] as int) % 12;
                    assert(covers(intervals@, r));
                    assert(present@[r]);
                    assert(out@.contains(r as i32));
                }
            }
            None
        } else {
            proof {
                if intervals@.len() == 0 {
                    assert(out@.contains(out@[0]));
                    assert(present@[out@[0] as int]);
                }
            }
            Some(ScaleQuantizer { intervals: out })
        }
    }

    /// The semitones, in increasing order.
    pub fn intervals(&self) -> (r: &[i32])
        ensures
            r@ == self.spec_intervals(),
    {
        self.intervals.as_slice()
    }

    /// A scale by its name, whatever the case of its ASCII letters: major
    /// (ionian), minor (aeolian), dorian, phrygian, lydian, mixolydian,
    /// locrian, majpent, minpent, chromatic, whole.
    pub fn named(name: &str) -> (r: Option<Self>)
        ensures
            r is Some <==> scale_degrees(lower(name@)) is Some,
            r matches Some(q) ==> is_scale_of(q.spec_intervals(), scale_degrees(lower(name@))->Some_0),
            r matches Some(q) ==> q.spec_intervals() == scale_degrees(lower(name@))->Some_0,
    {
        let n = chars_of(name);
        let ghost l = lower(name@);
        let degrees: Vec<i32> = if lower_eq(n.as_slice(), ['m', 'a', 'j', 'o', 'r'].as_slice())
            || lower_eq(n.as_slice(), ['i', 'o', 'n', 'i', 'a', 'n'].as_slice()) {
            vec_of(&[0, 2, 4, 5, 7, 9, 11])
        } else if lower_eq(n.as_slice(), ['m', 'i', 'n', 'o', 'r'].as_slice()) || lower_eq(
            n.as_slice(),
            ['a', 'e', 'o', 'l', 'i', 'a', 'n'].as_slice(),
        ) {
            vec_of(&[0, 2, 3, 5, 7, 8, 10])
        } else if lower_eq(n.as_slice(), ['d', 'o', 'r', 'i', 'a', 'n'].as_slice()) {
            vec_of(&[0, 2, 3, 5, 7, 9, 10])
        } else if lower_eq(n.as_slice(), ['p', 'h', 'r', 'y', 'g', 'i', 'a', 'n'].as_slice()) {
            vec_of(&[0, 1, 3, 5, 7, 8, 10])
        } else if lower_eq(n.as_slice(), ['l', 'y', 'd', 'i', 'a', 'n'].as_slice()) {
            vec_of(&[0, 2, 4, 6, 7, 9, 11])
        } else if lower_eq(
            n.as_slice(),
            ['m', 'i', 'x', 'o', 'l', 'y', 'd', 'i', 'a', 'n'].as_slice(),
        ) {
            vec_of(&[0, 2, 4, 5, 7, 9, 10])
        } else if lower_eq(n.as_slice(), ['l', 'o', 'c', 'r', 'i', 'a', 'n'].as_slice()) {
            vec_of(&[0, 1, 3, 5, 6, 8, 10])
        } else if lower_eq(n.as_slice(), ['m', 'a', 'j', 'p', 'e', 'n', 't'].as_slice()) {
            vec_of(&[0, 2, 4, 7, 9])
        } else if lower_eq(n.as_slice(), ['m', 'i', 'n', 'p', 'e', 'n', 't'].as_slice()) {
            vec_of(&[0, 3, 5, 7, 10])
        } else if lower_eq(
            n.as_slice(),
            ['c', 'h', 'r', 'o', 'm', 'a', 't', 'i', 'c'].as_slice(),
        ) {
            vec_of(&[0, 1, 2, 3, 4, 5, 6, 7, 8, 9, 10, 11])
        } else if lower_eq(n.as_slice(), ['w', 'h', 'o', 'l', 'e'].as_slice()) {
            vec_of(&[0, 2, 4, 6, 8, 10])
        } else {
            return None;
        };
        let r = Self::new(degrees.as_slice());
        proof {
            if r is Some {
                lemma_named_degrees_rise(lower(name@));
                lemma_scale_of_rising(r->Some_0.spec_intervals(), scale_degrees(lower(name@))->Some_0);
            }
        }
        r
    }

    /// A scale from comma separated degrees, each an integer with optional
    /// surrounding whitespace; `None` when one of them is not an integer.
    pub fn parse_degrees(degrees: &str) -> (r: Option<Self>)
        ensures
            r is Some <==> parsed_degrees(degrees@) is Some,
            r matches Some(q) ==> is_scale_of(q.spec_intervals(), parsed_degrees(degrees@)->Some_0),
    {
        let text = chars_of(degrees);
        proof {
            lemma_split_nonempty(degrees@);
        }
        match parse_degree_list(text.as_slice()) {
            Some(list) => Self::new(list.as_slice()),
            None => None,
        }
    }
}

/// ASCII lowercase of a character.
pub open spec fn ascii_lower(c: char) -> char {
    if 'A' <= c <= 'Z' {
        ((c as u32) + 32) as char
    } else {
        c
    }
}

/// ASCII lowercase of a text.
pub open spec fn lower(s: Seq<char>) -> Seq<char> {
    s.map_values(|c: char| ascii_lower(c))
}

/// The degrees of the scale with a (lowercase) name.
pub open spec fn scale_degrees(name: Seq<char>) -> Option<Seq<i32>> {
    if name == seq!['m', 'a', 'j', 'o', 'r'] || name == seq!['i', 'o', 'n', 'i', 'a', 'n'] {
        Some(seq![0i32, 2, 4, 5, 7, 9, 11])
    } else if name == seq!['m', 'i', 'n', 'o', 'r'] || name == seq!['a', 'e', 'o', 'l', 'i', 'a', 'n'] {
        Some(seq![0i32, 2, 3, 5, 7, 8, 10])
    } else if name == seq!['d', 'o', 'r', 'i', 'a', 'n'] {
        Some(seq![0i32, 2, 3, 5, 7, 9, 10])
    } else if name == seq!['p', 'h', 'r', 'y', 'g', 'i', 'a', 'n'] {
        Some(seq![0i32, 1, 3, 5, 7, 8, 10])
    } else if name == seq!['l', 'y', 'd', 'i', 'a', 'n'] {
        Some(seq![0i32, 2, 4, 6, 7, 9, 11])
    } else if name == seq!['m', 'i', 'x', 'o', 'l', 'y', 'd', 'i', 'a', 'n'] {
        Some(seq![0i32, 2, 4, 5, 7, 9, 10])
    } else if name == seq!['l', 'o', 'c', 'r', 'i', 'a', 'n'] {
        Some(seq![0i32, 1, 3, 5, 6, 8, 10])
    } else if name == seq!['m', 'a', 'j', 'p', 'e', 'n', 't'] {
        Some(seq![0i32, 2, 4, 7, 9])
    } else if name == seq!['m', 'i', 'n', 'p', 'e', 'n', 't'] {
        Some(seq![0i32, 3, 5, 7, 10])
    } else if name == seq!['c', 'h', 'r', 'o', 'm', 'a', 't', 'i', 'c'] {
        Some(seq![0i32, 1, 2, 3, 4, 5, 6, 7, 8, 9, 10, 11])
    } else if name == seq!['w', 'h', 'o', 'l', 'e'] {
        Some(seq![0i32, 2, 4, 6, 8, 10])
    } else {
        None
    }
}

/// Whether the ASCII lowercase of `a` is `word`.
fn lower_eq(a: &[char], word: &[char]) -> (r: bool)
    ensures
        r == (lower(a@) == word@),
{
    if a.len() != word.len() {
        assert(lower(a@).len() == a@.len());
        return false;
    }
    let mut i: usize = 0;
    while i < a.len()
        invariant
            a@.len() == word@.len(),
            i <= a@.len(),
            forall|k: int| 0 <= k < i ==> ascii_lower(a@[k]) == word@[k],
        decreases a@.len() - i,
    {
        let c = a[i];
        let l = if 'A' <= c && c <= 'Z' {
            char_lower_upper(c)
        } else {
            c
        };
        if l != word[i] {
            assert(lower(a@)[i as int] != word@[i as int]);
            return false;
        }
        i = i + 1;
    }
    assert(lower(a@) =~= word@);
    true
}

/// The lowercase letter of an uppercase ASCII letter.
fn char_lower_upper(c: char) -> (r: char)
    requires
        'A' <= c <= 'Z',
    ensures
        r == ascii_lower(c),
{
    let v = (c as u32) + 32;
    let r = char_of_ascii(v);
    r
}

/// The ASCII character with the given code.
fn char_of_ascii(v: u32) -> (r: char)
    requires
        v < 128,
    ensures
        r == v as char,
{
    let b = v as u8;
    b as char
}

/// A vector holding the integers of `a`.
fn vec_of(a: &[i32]) -> (v: Vec<i32>)
    ensures
        v@ == a@,
{
    let mut v: Vec<i32> = Vec::with_capacity(a.len());
    let mut i: usize = 0;
    while i < a.len()
        invariant
            i <= a@.len(),
            v@ == a@.take(i as int),
        decreases a@.len() - i,
    {
        v.push(a[i]);
        i = i + 1;
        assert(v@ =~= a@.take(i as int));
    }
    assert(a@.take(a@.len() as int) =~= a@);
    v
}

/// The semitone of the octave a degree lands on, counted from 0.
fn semitone(x: i32) -> (r: i32)
    ensures
        0 <= r < 12,
        r as int == (x as int) % 12,
{
    let shifted: u64 = (x as i64 + 2147483652i64) as u64;
    let r = (shifted % 12) as i32;
    proof {
        vstd::arithmetic::div_mod::lemma_mod_multiples_vanish(178956971, x as int, 12);
    }
    r
}

/// The value of a run of decimal digits.
pub open spec fn decimal_value(s: Seq<char>) -> int
    decreases s.len(),
{
    if s.len() == 0 {
        0
    } else {
        decimal_value(s.drop_last()) * 10 + ((s.last() as int) - ('0' as int))
    }
}

pub open spec fn is_digit(c: char) -> bool {
    '0' <= c <= '9'
}

/// The `i32` a text denotes: an optional sign then at least one decimal
/// digit, within range.
pub open spec fn parse_i32(s: Seq<char>) -> Option<i32> {
    if s.len() == 0 {
        None
    } else {
        let digits = digits_of(s);
        if digits.len() == 0 || exists|i: int| 0 <= i < digits.len() && !is_digit(#[trigger] digits[i]) {
            None
        } else {
            let v = if s[0] == '-' {
                -decimal_value(digits)
            } else {
                decimal_value(digits)
            };
            if i32::MIN <= v <= i32::MAX {
                Some(v as i32)
            } else {
                None
            }
        }
    }
}

/// The parts of `s` between commas.
pub open spec fn split_commas(s: Seq<char>) -> Seq<Seq<char>>
    decreases s.len(),
{
    if s.len() == 0 {
        seq![Seq::empty()]
    } else {
        let parts = split_commas(s.drop_last());
        if s.last() == ',' {
            parts.push(Seq::empty())
        } else {
            parts.update(parts.len() - 1, parts.last().push(s.last()))
        }
    }
}

/// The degrees of a comma separated list, `None` when a part is not an
/// integer.
pub open spec fn parsed_degrees(s: Seq<char>) -> Option<Seq<i32>> {
    let parts = split_commas(s);
    if forall|i: int| 0 <= i < parts.len() ==> (#[trigger] parse_i32(trimmed(parts[i]))) is Some {
        Some(Seq::new(parts.len(), |i: int| parse_i32(trimmed(parts[i]))->Some_0))
    } else {
        None
    }
}

proof fn lemma_split_nonempty(s: Seq<char>)
    ensures
        split_commas(s).len() >= 1,
    decreases s.len(),
{
    if s.len() > 0 {
        lemma_split_nonempty(s.drop_last());
    }
}

/// The digits of a number text, after its sign.
pub open spec fn digits_of(t: Seq<char>) -> Seq<char> {
    if t[0] == '-' || t[0] == '+' {
        t.drop_first()
    } else {
        t
    }
}

proof fn lemma_parse_bad_digit(t: Seq<char>, j: int)
    requires
        t.len() > 0,
        0 <= j < digits_of(t).len(),
        !is_digit(digits_of(t)[j]),
    ensures
        parse_i32(t) is None,
{
}

proof fn lemma_parse_too_big(t: Seq<char>, k: nat)
    requires
        t.len() > 0,
        k <= digits_of(t).len(),
        decimal_value(digits_of(t).take(k as int)) > 2147483648,
    ensures
        parse_i32(t) is None,
{
    if !exists|j: int| 0 <= j < digits_of(t).len() && !is_digit(#[trigger] digits_of(t)[j]) {
        lemma_decimal_prefix(digits_of(t), k);
    }
}

/// A run of digits is worth at least any of its prefixes.
pub(crate) proof fn lemma_decimal_prefix(s: Seq<char>, k: nat)
    requires
        k <= s.len(),
        forall|i: int| 0 <= i < s.len() ==> is_digit(s[i]),
    ensures
        decimal_value(s) >= decimal_value(s.take(k as int)),
    decreases s.len(),
{
    if k < s.len() {
        let d = s.drop_last();
        assert(d.take(k as int) =~= s.take(k as int));
        lemma_decimal_prefix(d, k);
        lemma_decimal_bound(d);
    } else {
        assert(s.take(k as int) =~= s);
    }
}

pub(crate) proof fn lemma_decimal_bound(s: Seq<char>)
    requires
        forall|i: int| 0 <= i < s.len() ==> is_digit(s[i]),
    ensures
        decimal_value(s) >= 0,
    decreases s.len(),
{
    if s.len() > 0 {
        lemma_decimal_bound(s.drop_last());
    }
}

/// The integer that `s[lo..hi]`, trimmed, denotes.
fn parse_part(s: &[char], lo: usize, hi: usize) -> (r: Option<i32>)
    requires
        lo <= hi <= s@.len(),
    ensures
        r == parse_i32(trimmed(s@.subrange(lo as int, hi as int))),
{
    let mut part: Vec<char> = Vec::new();
    let mut i = lo;
    while i < hi
        invariant
            lo <= i <= hi,
            hi <= s@.len(),
            part@ == s@.subrange(lo as int, i as int),
        decreases hi - i,
    {
        part.push(s[i]);
        i = i + 1;
        assert(part@ =~= s@.subrange(lo as int, i as int));
    }
    let t = trim(part.as_slice());
    if t.len() == 0 {
        return None;
    }
    let r = parse_signed(t.as_slice(), 0, t.len());
    assert(t@.subrange(0, t@.len() as int) =~= t@);
    r
}

/// The `i32` that `s[a..b]` denotes: an optional sign, then decimal
/// digits, within range.
pub(crate) fn parse_signed(s: &[char], a: usize, b: usize) -> (r: Option<i32>)
    requires
        a < b <= s@.len(),
    ensures
        r == parse_i32(s@.subrange(a as int, b as int)),
{
    let ghost t = s@.subrange(a as int, b as int);
    // Sign.
    let neg = s[a] == '-';
    let start = if s[a] == '-' || s[a] == '+' {
        a + 1
    } else {
        a
    };
    let ghost digits = s@.subrange(start as int, b as int);
    assert(digits =~= (if t[0] == '-' || t[0] == '+' {
        t.drop_first()
    } else {
        t
    }));
    if start == b {
        assert(parse_i32(t) is None);
        return None;
    }
    let mut acc: i64 = 0;
    let mut i = start;
    assert(s@.subrange(start as int, start as int) =~= Seq::<char>::empty());
    while i < b
        invariant
            start <= i <= b,
            b <= s@.len(),
            digits == s@.subrange(start as int, b as int),
            t == s@.subrange(a as int, b as int),
            t.len() > 0,
            digits == digits_of(t),
            neg == (t[0] == '-'),
            forall|k: int| start <= k < i ==> is_digit(s@[k]),
            acc as int == decimal_value(s@.subrange(start as int, i as int)),
            0 <= acc <= 2147483648,
        decreases b - i,
    {
        let c = s[i];
        if !('0' <= c && c <= '9') {
            proof {
                assert(digits[i - start] == c);
                lemma_parse_bad_digit(t, (i - start) as int);
            }
            return None;
        }
        let d = (c as u32 - '0' as u32) as i64;
        assert(s@.subrange(start as int, i + 1).drop_last() =~= s@.subrange(start as int, i as int));
        acc = acc * 10 + d;
        if acc > 2147483648 {
            proof {
                let k = (i + 1 - start) as nat;
                assert(digits.take(k as int) =~= s@.subrange(start as int, i + 1));
                lemma_parse_too_big(t, k);
            }
            return None;
        }
        i = i + 1;
    }
    assert(s@.subrange(start as int, i as int) =~= digits);
    assert forall|j: int| 0 <= j < digits.len() implies is_digit(#[trigger] digits[j]) by {
        assert(digits[j] == s@[start + j]);
    }
    assert(digits == digits_of(t));
    let v: i64 = if neg {
        -acc
    } else {
        acc
    };
    if v < -2147483648 || v > 2147483647 {
        None
    } else {
        Some(v as i32)
    }
}

/// The degrees of a comma separated list, `None` when a part is not an
/// integer.
fn parse_degree_list(s: &[char]) -> (r: Option<Vec<i32>>)
    ensures
        r is Some <==> parsed_degrees(s@) is Some,
        r matches Some(v) ==> v@ == parsed_degrees(s@)->Some_0,
{
    let mut out: Vec<i32> = Vec::new();
    let mut lo: usize = 0;
    let mut i: usize = 0;
    let ghost mut done: Seq<Seq<char>> = Seq::empty();
    assert(split_commas(s@.take(0)) =~= seq![Seq::<char>::empty()]);
    assert(s@.subrange(0, 0) =~= Seq::<char>::empty());
    assert(done.push(s@.subrange(0, 0)) =~= seq![Seq::<char>::empty()]);
    while i < s.len()
        invariant
            lo <= i <= s@.len(),
            split_commas(s@.take(i as int)) == done.push(s@.subrange(lo as int, i as int)),
            out@.len() == done.len(),
            forall|k: int| 0 <= k < done.len() ==> (#[trigger] parse_i32(trimmed(done[k]))) is Some
                && out@[k] == parse_i32(trimmed(done[k]))->Some_0,
        decreases s@.len() - i,
    {
        let ghost prefix = s@.take(i + 1);
        assert(prefix.drop_last() =~= s@.take(i as int));
        if s[i] == ',' {
            let ghost parts = done.push(s@.subrange(lo as int, i as int));
            assert(split_commas(prefix) == parts.push(Seq::empty()));
            match parse_part(s, lo, i) {
                Some(v) => {
                    out.push(v);
                },
                None => {
                    proof {
                        lemma_split_extends(s, (i + 1) as nat, s@.len());
                        assert(s@.take(s@.len() as int) =~= s@);
                        assert(split_commas(s@)[done.len() as int] == s@.subrange(lo as int, i as int));
                    }
                    return None;
                },
            }
            proof {
                done = parts;
            }
            lo = i + 1;
            assert(s@.subrange(lo as int, i + 1) =~= Seq::<char>::empty());
        } else {
            assert(s@.subrange(lo as int, i + 1) =~= s@.subrange(lo as int, i as int).push(s@[i as int]));
        }
        i = i + 1;
    }
    assert(s@.take(s@.len() as int) =~= s@);
    match parse_part(s, lo, s.len()) {
        Some(v) => {
            out.push(v);
            proof {
                let parts = split_commas(s@);
                assert forall|k: int| 0 <= k < parts.len() implies (#[trigger] parse_i32(trimmed(parts[k]))) is Some by {
                    if k < done.len() {
                        assert(parts[k] == done[k]);
                    }
                }
                assert forall|k: int| 0 <= k < parts.len() implies out@[k] == parse_i32(trimmed(parts[k]))->Some_0 by {
                    if k < done.len() {
                        assert(parts[k] == done[k]);
                    }
                }
                assert(out@ =~= Seq::new(parts.len(), |k: int| parse_i32(trimmed(parts[k]))->Some_0));
            }
            Some(out)
        },
        None => {
            proof {
                let parts = split_commas(s@);
                assert(parts[done.len() as int] == s@.subrange(lo as int, s@.len() as int));
            }
            None
        },
    }
}

/// Splitting a longer prefix keeps every part of a prefix that ends in a
/// comma, but for the last (empty) one.
proof fn lemma_split_extends(s: &[char], i: nat, j: nat)
    requires
        0 < i <= j <= s@.len(),
        s@[i - 1] == ',',
    ensures
        split_commas(s@.take(j as int)).len() >= split_commas(s@.take(i as int)).len(),
        forall|k: int|
            0 <= k < split_commas(s@.take(i as int)).len() - 1 ==> #[trigger] split_commas(
                s@.take(j as int),
            )[k] == split_commas(s@.take(i as int))[k],
    decreases j - i,
{
    lemma_split_nonempty(s@.take(i as int));
    if j > i {
        lemma_split_extends(s, i, (j - 1) as nat);
        assert(s@.take(j as int).drop_last() =~= s@.take(j - 1));
        lemma_split_nonempty(s@.take(j - 1));
        let prev = split_commas(s@.take(j - 1));
        let cur = split_commas(s@.take(j as int));
        assert forall|k: int| 0 <= k < split_commas(s@.take(i as int)).len() - 1 implies #[trigger] cur[k] == split_commas(
            s@.take(i as int),
        )[k] by {
            assert(cur[k] == prev[k]);
        }
    }
}

/// Two runs in increasing order that hold the same values are the same run.
proof fn lemma_increasing_runs_equal(a: Seq<i32>, b: Seq<i32>)
    requires
        forall|x: i32| a.contains(x) <==> b.contains(x),
        forall|i: int, j: int| 0 <= i < j < a.len() ==> #[trigger] a[i] < #[trigger] a[j],
        forall|i: int, j: int| 0 <= i < j < b.len() ==> #[trigger] b[i] < #[trigger] b[j],
    ensures
        a == b,
    decreases a.len() + b.len(),
{
    if a.len() == 0 {
        if b.len() > 0 {
            assert(b.contains(b[0]));
        }
        assert(a =~= b);
    } else if b.len() == 0 {
        assert(a.contains(a[0]));
    } else {
        assert(b.contains(a[0]));
        assert(a.contains(b[0]));
        let j = choose|j: int| 0 <= j < b.len() && b[j] == a[0];
        let i = choose|i: int| 0 <= i < a.len() && a[i] == b[0];
        if a[0] != b[0] {
            assert(j > 0 && i > 0);
            assert(b[0] < b[j]);
            assert(a[0] < a[i]);
        }
        let a1 = a.drop_first();
        let b1 = b.drop_first();
        assert forall|x: i32| a1.contains(x) <==> b1.contains(x) by {
            if a1.contains(x) {
                let k = choose|k: int| 0 <= k < a1.len() && a1[k] == x;
                assert(a[0] < a[k + 1]);
                assert(b.contains(x));
                let m = choose|m: int| 0 <= m < b.len() && b[m] == x;
                assert(m != 0);
                assert(b1[m - 1] == x);
            }
            if b1.contains(x) {
                let k = choose|k: int| 0 <= k < b1.len() && b1[k] == x;
                assert(b[0] < b[k + 1]);
                assert(a.contains(x));
                let m = choose|m: int| 0 <= m < a.len() && a[m] == x;
                assert(m != 0);
                assert(a1[m - 1] == x);
            }
        }
        assert forall|i: int, j: int| 0 <= i < j < a1.len() implies #[trigger] a1[i] < #[trigger] a1[j] by {
            assert(a[i + 1] < a[j + 1]);
        }
        assert forall|i: int, j: int| 0 <= i < j < b1.len() implies #[trigger] b1[i] < #[trigger] b1[j] by {
            assert(b[i + 1] < b[j + 1]);
        }
        lemma_increasing_runs_equal(a1, b1);
        assert(a =~= seq![a[0]] + a1);
        assert(b =~= seq![b[0]] + b1);
    }
}

/// The named scales, each with its degrees.
pub open spec fn scale_table() -> Seq<(Seq<char>, Seq<i32>)> {
    seq![
        (seq!['m', 'a', 'j', 'o', 'r'], seq![0i32, 2, 4, 5, 7, 9, 11]),
        (seq!['i', 'o', 'n', 'i', 'a', 'n'], seq![0i32, 2, 4, 5, 7, 9, 11]),
        (seq!['m', 'i', 'n', 'o', 'r'], seq![0i32, 2, 3, 5, 7, 8, 10]),
        (seq!['a', 'e', 'o', 'l', 'i', 'a', 'n'], seq![0i32, 2, 3, 5, 7, 8, 10]),
        (seq!['d', 'o', 'r', 'i', 'a', 'n'], seq![0i32, 2, 3, 5, 7, 9, 10]),
        (seq!['p', 'h', 'r', 'y', 'g', 'i', 'a', 'n'], seq![0i32, 1, 3, 5, 7, 8, 10]),
        (seq!['l', 'y', 'd', 'i', 'a', 'n'], seq![0i32, 2, 4, 6, 7, 9, 11]),
        (seq!['m', 'i', 'x', 'o', 'l', 'y', 'd', 'i', 'a', 'n'], seq![0i32, 2, 4, 5, 7, 9, 10]),
        (seq!['l', 'o', 'c', 'r', 'i', 'a', 'n'], seq![0i32, 1, 3, 5, 6, 8, 10]),
        (seq!['m', 'a', 'j', 'p', 'e', 'n', 't'], seq![0i32, 2, 4, 7, 9]),
        (seq!['m', 'i', 'n', 'p', 'e', 'n', 't'], seq![0i32, 3, 5, 7, 10]),
        (seq!['c', 'h', 'r', 'o', 'm', 'a', 't', 'i', 'c'], seq![0i32, 1, 2, 3, 4, 5, 6, 7, 8, 9, 10, 11]),
        (seq!['w', 'h', 'o', 'l', 'e'], seq![0i32, 2, 4, 6, 8, 10])
    ]
}

/// Each name of the table gives its degrees.
pub proof fn lemma_scale_table(i: int)
    requires
        0 <= i < scale_table().len(),
    ensures
        scale_degrees(scale_table()[i].0) == Some(scale_table()[i].1),
{
    assert(scale_degrees(seq!['m', 'a', 'j', 'o', 'r']) == Some(seq![0i32, 2, 4, 5, 7, 9, 11]));
    assert(scale_degrees(seq!['i', 'o', 'n', 'i', 'a', 'n']) == Some(seq![0i32, 2, 4, 5, 7, 9, 11]));
    assert(seq!['m', 'i', 'n', 'o', 'r'] != seq!['m', 'a', 'j', 'o', 'r']) by { assert(seq!['m', 'i', 'n', 'o', 'r'][1] != seq!['m', 'a', 'j', 'o', 'r'][1]); }
    assert(scale_degrees(seq!['m', 'i', 'n', 'o', 'r']) == Some(seq![0i32, 2, 3, 5, 7, 8, 10]));
    assert(scale_degrees(seq!['a', 'e', 'o', 'l', 'i', 'a', 'n']) == Some(seq![0i32, 2, 3, 5, 7, 8, 10]));
    assert(seq!['d', 'o', 'r', 'i', 'a', 'n'] != seq!['i', 'o', 'n', 'i', 'a', 'n']) by { assert(seq!['d', 'o', 'r', 'i', 'a', 'n'][0] != seq!['i', 'o', 'n', 'i', 'a', 'n'][0]); }
    assert(scale_degrees(seq!['d', 'o', 'r', 'i', 'a', 'n']) == Some(seq![0i32, 2, 3, 5, 7, 9, 10]));
    assert(scale_degrees(seq!['p', 'h', 'r', 'y', 'g', 'i', 'a', 'n']) == Some(seq![0i32, 1, 3, 5, 7, 8, 10]));
    assert(seq!['l', 'y', 'd', 'i', 'a', 'n'] != seq!['i', 'o', 'n', 'i', 'a', 'n']) by { assert(seq!['l', 'y', 'd', 'i', 'a', 'n'][0] != seq!['i', 'o', 'n', 'i', 'a', 'n'][0]); }
    assert(seq!['l', 'y', 'd', 'i', 'a', 'n'] != seq!['d', 'o', 'r', 'i', 'a', 'n']) by { assert(seq!['l', 'y', 'd', 'i', 'a', 'n'][0] != seq!['d', 'o', 'r', 'i', 'a', 'n'][0]); }
    assert(scale_degrees(seq!['l', 'y', 'd', 'i', 'a', 'n']) == Some(seq![0i32, 2, 4, 6, 7, 9, 11]));
    assert(scale_degrees(seq!['m', 'i', 'x', 'o', 'l', 'y', 'd', 'i', 'a', 'n']) == Some(seq![0i32, 2, 4, 5, 7, 9, 10]));
    assert(seq!['l', 'o', 'c', 'r', 'i', 'a', 'n'] != seq!['a', 'e', 'o', 'l', 'i', 'a', 'n']) by { assert(seq!['l', 'o', 'c', 'r', 'i', 'a', 'n'][0] != seq!['a', 'e', 'o', 'l', 'i', 'a', 'n'][0]); }
    assert(scale_degrees(seq!['l', 'o', 'c', 'r', 'i', 'a', 'n']) == Some(seq![0i32, 1, 3, 5, 6, 8, 10]));
    assert(seq!['m', 'a', 'j', 'p', 'e', 'n', 't'] != seq!['a', 'e', 'o', 'l', 'i', 'a', 'n']) by { assert(seq!['m', 'a', 'j', 'p', 'e', 'n', 't'][0] != seq!['a', 'e', 'o', 'l', 'i', 'a', 'n'][0]); }
    assert(seq!['m', 'a', 'j', 'p', 'e', 'n', 't'] != seq!['l', 'o', 'c', 'r', 'i', 'a', 'n']) by { assert(seq!['m', 'a', 'j', 'p', 'e', 'n', 't'][0] != seq!['l', 'o', 'c', 'r', 'i', 'a', 'n'][0]); }
    assert(scale_degrees(seq!['m', 'a', 'j', 'p', 'e', 'n', 't']) == Some(seq![0i32, 2, 4, 7, 9]));
    assert(seq!['m', 'i', 'n', 'p', 'e', 'n', 't'] != seq!['a', 'e', 'o', 'l', 'i', 'a', 'n']) by { assert(seq!['m', 'i', 'n', 'p', 'e', 'n', 't'][0] != seq!['a', 'e', 'o', 'l', 'i', 'a', 'n'][0]); }
    assert(seq!['m', 'i', 'n', 'p', 'e', 'n', 't'] != seq!['l', 'o', 'c', 'r', 'i', 'a', 'n']) by { assert(seq!['m', 'i', 'n', 'p', 'e', 'n', 't'][0] != seq!['l', 'o', 'c', 'r', 'i', 'a', 'n'][0]); }
    assert(seq!['m', 'i', 'n', 'p', 'e', 'n', 't'] != seq!['m', 'a', 'j', 'p', 'e', 'n', 't']) by { assert(seq!['m', 'i', 'n', 'p', 'e', 'n', 't'][1] != seq!['m', 'a', 'j', 'p', 'e', 'n', 't'][1]); }
    assert(scale_degrees(seq!['m', 'i', 'n', 'p', 'e', 'n', 't']) == Some(seq![0i32, 3, 5, 7, 10]));
    assert(scale_degrees(seq!['c', 'h', 'r', 'o', 'm', 'a', 't', 'i', 'c']) == Some(seq![0i32, 1, 2, 3, 4, 5, 6, 7, 8, 9, 10, 11]));
    assert(seq!['w', 'h', 'o', 'l', 'e'] != seq!['m', 'a', 'j', 'o', 'r']) by { assert(seq!['w', 'h', 'o', 'l', 'e'][0] != seq!['m', 'a', 'j', 'o', 'r'][0]); }
    assert(seq!['w', 'h', 'o', 'l', 'e'] != seq!['m', 'i', 'n', 'o', 'r']) by { assert(seq!['w', 'h', 'o', 'l', 'e'][0] != seq!['m', 'i', 'n', 'o', 'r'][0]); }
    assert(scale_degrees(seq!['w', 'h', 'o', 'l', 'e']) == Some(seq![0i32, 2, 4, 6, 8, 10]));
    assert(scale_table()[i] == scale_table()[i]);
}

/// Only the names of the table are scales.
pub proof fn lemma_scale_names(name: Seq<char>)
    requires
        scale_degrees(name) is Some,
    ensures
        exists|i: int| 0 <= i < scale_table().len() && (#[trigger] scale_table()[i]).0 == name,
{
    if name == seq!['m', 'a', 'j', 'o', 'r'] { assert(scale_table()[0].0 == name); }
    if name == seq!['i', 'o', 'n', 'i', 'a', 'n'] { assert(scale_table()[1].0 == name); }
    if name == seq!['m', 'i', 'n', 'o', 'r'] { assert(scale_table()[2].0 == name); }
    if name == seq!['a', 'e', 'o', 'l', 'i', 'a', 'n'] { assert(scale_table()[3].0 == name); }
    if name == seq!['d', 'o', 'r', 'i', 'a', 'n'] { assert(scale_table()[4].0 == name); }
    if name == seq!['p', 'h', 'r', 'y', 'g', 'i', 'a', 'n'] { assert(scale_table()[5].0 == name); }
    if name == seq!['l', 'y', 'd', 'i', 'a', 'n'] { assert(scale_table()[6].0 == name); }
    if name == seq!['m', 'i', 'x', 'o', 'l', 'y', 'd', 'i', 'a', 'n'] { assert(scale_table()[7].0 == name); }
    if name == seq!['l', 'o', 'c', 'r', 'i', 'a', 'n'] { assert(scale_table()[8].0 == name); }
    if name == seq!['m', 'a', 'j', 'p', 'e', 'n', 't'] { assert(scale_table()[9].0 == name); }
    if name == seq!['m', 'i', 'n', 'p', 'e', 'n', 't'] { assert(scale_table()[10].0 == name); }
    if name == seq!['c', 'h', 'r', 'o', 'm', 'a', 't', 'i', 'c'] { assert(scale_table()[11].0 == name); }
    if name == seq!['w', 'h', 'o', 'l', 'e'] { assert(scale_table()[12].0 == name); }
}

/// The degrees of the mode that starts on the `r`-th degree of `major`: the
/// scale read from that degree on, up an octave where it wraps.
pub open spec fn mode_of(major: Seq<i32>, r: int) -> Seq<i32> {
    Seq::new(
        7,
        |k: int|
            if k + r < 7 {
                (major[k + r] - major[r]) as i32
            } else {
                (major[k + r - 7] + 12 - major[r]) as i32
            },
    )
}

/// The modes of the major scale, degree by degree.
proof fn lemma_mode_degrees()
    ensures
        mode_of(seq![0i32, 2, 4, 5, 7, 9, 11], 0) == seq![0i32, 2, 4, 5, 7, 9, 11],
        mode_of(seq![0i32, 2, 4, 5, 7, 9, 11], 1) == seq![0i32, 2, 3, 5, 7, 9, 10],
        mode_of(seq![0i32, 2, 4, 5, 7, 9, 11], 2) == seq![0i32, 1, 3, 5, 7, 8, 10],
        mode_of(seq![0i32, 2, 4, 5, 7, 9, 11], 3) == seq![0i32, 2, 4, 6, 7, 9, 11],
        mode_of(seq![0i32, 2, 4, 5, 7, 9, 11], 4) == seq![0i32, 2, 4, 5, 7, 9, 10],
        mode_of(seq![0i32, 2, 4, 5, 7, 9, 11], 5) == seq![0i32, 2, 3, 5, 7, 8, 10],
        mode_of(seq![0i32, 2, 4, 5, 7, 9, 11], 6) == seq![0i32, 1, 3, 5, 6, 8, 10],
{
    let major = seq![0i32, 2, 4, 5, 7, 9, 11];
    assert(mode_of(major, 0)[0] == 0); assert(mode_of(major, 0)[1] == 2); assert(mode_of(major, 0)[2] == 4); assert(mode_of(major, 0)[3] == 5); assert(mode_of(major, 0)[4] == 7); assert(mode_of(major, 0)[5] == 9); assert(mode_of(major, 0)[6] == 11);
    assert(mode_of(major, 0) =~= seq![0i32, 2, 4, 5, 7, 9, 11]);
    assert(mode_of(major, 1)[0] == 0); assert(mode_of(major, 1)[1] == 2); assert(mode_of(major, 1)[2] == 3); assert(mode_of(major, 1)[3] == 5); assert(mode_of(major, 1)[4] == 7); assert(mode_of(major, 1)[5] == 9); assert(mode_of(major, 1)[6] == 10);
    assert(mode_of(major, 1) =~= seq![0i32, 2, 3, 5, 7, 9, 10]);
    assert(mode_of(major, 2)[0] == 0); assert(mode_of(major, 2)[1] == 1); assert(mode_of(major, 2)[2] == 3); assert(mode_of(major, 2)[3] == 5); assert(mode_of(major, 2)[4] == 7); assert(mode_of(major, 2)[5] == 8); assert(mode_of(major, 2)[6] == 10);
    assert(mode_of(major, 2) =~= seq![0i32, 1, 3, 5, 7, 8, 10]);
    assert(mode_of(major, 3)[0] == 0); assert(mode_of(major, 3)[1] == 2); assert(mode_of(major, 3)[2] == 4); assert(mode_of(major, 3)[3] == 6); assert(mode_of(major, 3)[4] == 7); assert(mode_of(major, 3)[5] == 9); assert(mode_of(major, 3)[6] == 11);
    assert(mode_of(major, 3) =~= seq![0i32, 2, 4, 6, 7, 9, 11]);
    assert(mode_of(major, 4)[0] == 0); assert(mode_of(major, 4)[1] == 2); assert(mode_of(major, 4)[2] == 4); assert(mode_of(major, 4)[3] == 5); assert(mode_of(major, 4)[4] == 7); assert(mode_of(major, 4)[5] == 9); assert(mode_of(major, 4)[6] == 10);
    assert(mode_of(major, 4) =~= seq![0i32, 2, 4, 5, 7, 9, 10]);
    assert(mode_of(major, 5)[0] == 0); assert(mode_of(major, 5)[1] == 2); assert(mode_of(major, 5)[2] == 3); assert(mode_of(major, 5)[3] == 5); assert(mode_of(major, 5)[4] == 7); assert(mode_of(major, 5)[5] == 8); assert(mode_of(major, 5)[6] == 10);
    assert(mode_of(major, 5) =~= seq![0i32, 2, 3, 5, 7, 8, 10]);
    assert(mode_of(major, 6)[0] == 0); assert(mode_of(major, 6)[1] == 1); assert(mode_of(major, 6)[2] == 3); assert(mode_of(major, 6)[3] == 5); assert(mode_of(major, 6)[4] == 6); assert(mode_of(major, 6)[5] == 8); assert(mode_of(major, 6)[6] == 10);
    assert(mode_of(major, 6) =~= seq![0i32, 1, 3, 5, 6, 8, 10]);
}

/// The church modes are the major scale, whole steps `2, 2, 1, 2, 2, 2, 1`,
/// started on each of its degrees in turn: ionian on the first, dorian on
/// the second, phrygian, lydian, mixolydian, aeolian (minor) and locrian on
/// the following ones.
pub proof fn lemma_modes_rotate_major()
    ensures
        ({
            let major = scale_degrees(seq!['m', 'a', 'j', 'o', 'r'])->Some_0;
            &&& major.len() == 7
            &&& major[0] == 0
            &&& major[1] - major[0] == 2 && major[2] - major[1] == 2 && major[3] - major[2] == 1
            &&& major[4] - major[3] == 2 && major[5] - major[4] == 2 && major[6] - major[5] == 2
            &&& 12 - major[6] == 1
            &&& scale_degrees(seq!['i', 'o', 'n', 'i', 'a', 'n']) == Some(mode_of(major, 0))
            &&& scale_degrees(seq!['d', 'o', 'r', 'i', 'a', 'n']) == Some(mode_of(major, 1))
            &&& scale_degrees(seq!['p', 'h', 'r', 'y', 'g', 'i', 'a', 'n']) == Some(mode_of(major, 2))
            &&& scale_degrees(seq!['l', 'y', 'd', 'i', 'a', 'n']) == Some(mode_of(major, 3))
            &&& scale_degrees(seq!['m', 'i', 'x', 'o', 'l', 'y', 'd', 'i', 'a', 'n']) == Some(mode_of(major, 4))
            &&& scale_degrees(seq!['a', 'e', 'o', 'l', 'i', 'a', 'n']) == Some(mode_of(major, 5))
            &&& scale_degrees(seq!['l', 'o', 'c', 'r', 'i', 'a', 'n']) == Some(mode_of(major, 6))
            &&& scale_degrees(seq!['m', 'i', 'n', 'o', 'r']) == Some(mode_of(major, 5))
        }),
{
    lemma_mode_degrees();
    assert(scale_degrees(seq!['m', 'a', 'j', 'o', 'r']) == Some(seq![0i32, 2, 4, 5, 7, 9, 11]));
    assert(scale_degrees(seq!['i', 'o', 'n', 'i', 'a', 'n']) == Some(seq![0i32, 2, 4, 5, 7, 9, 11]));
    assert(seq!['m', 'i', 'n', 'o', 'r'] != seq!['m', 'a', 'j', 'o', 'r']) by { assert(seq!['m', 'i', 'n', 'o', 'r'][1] != seq!['m', 'a', 'j', 'o', 'r'][1]); }
    assert(scale_degrees(seq!['m', 'i', 'n', 'o', 'r']) == Some(seq![0i32, 2, 3, 5, 7, 8, 10]));
    assert(scale_degrees(seq!['a', 'e', 'o', 'l', 'i', 'a', 'n']) == Some(seq![0i32, 2, 3, 5, 7, 8, 10]));
    assert(seq!['d', 'o', 'r', 'i', 'a', 'n'] != seq!['i', 'o', 'n', 'i', 'a', 'n']) by { assert(seq!['d', 'o', 'r', 'i', 'a', 'n'][0] != seq!['i', 'o', 'n', 'i', 'a', 'n'][0]); }
    assert(scale_degrees(seq!['d', 'o', 'r', 'i', 'a', 'n']) == Some(seq![0i32, 2, 3, 5, 7, 9, 10]));
    assert(scale_degrees(seq!['p', 'h', 'r', 'y', 'g', 'i', 'a', 'n']) == Some(seq![0i32, 1, 3, 5, 7, 8, 10]));
    assert(seq!['l', 'y', 'd', 'i', 'a', 'n'] != seq!['i', 'o', 'n', 'i', 'a', 'n']) by { assert(seq!['l', 'y', 'd', 'i', 'a', 'n'][0] != seq!['i', 'o', 'n', 'i', 'a', 'n'][0]); }
    assert(seq!['l', 'y', 'd', 'i', 'a', 'n'] != seq!['d', 'o', 'r', 'i', 'a', 'n']) by { assert(seq!['l', 'y', 'd', 'i', 'a', 'n'][0] != seq!['d', 'o', 'r', 'i', 'a', 'n'][0]); }
    assert(scale_degrees(seq!['l', 'y', 'd', 'i', 'a', 'n']) == Some(seq![0i32, 2, 4, 6, 7, 9, 11]));
    assert(scale_degrees(seq!['m', 'i', 'x', 'o', 'l', 'y', 'd', 'i', 'a', 'n']) == Some(seq![0i32, 2, 4, 5, 7, 9, 10]));
    assert(seq!['l', 'o', 'c', 'r', 'i', 'a', 'n'] != seq!['a', 'e', 'o', 'l', 'i', 'a', 'n']) by { assert(seq!['l', 'o', 'c', 'r', 'i', 'a', 'n'][0] != seq!['a', 'e', 'o', 'l', 'i', 'a', 'n'][0]); }
    assert(scale_degrees(seq!['l', 'o', 'c', 'r', 'i', 'a', 'n']) == Some(seq![0i32, 1, 3, 5, 6, 8, 10]));
}

/// Degrees that rise step by step rise all along.
proof fn lemma_steps_rise(d: Seq<i32>)
    requires
        forall|k: int| 0 <= k < d.len() - 1 ==> d[k] < #[trigger] d[k + 1],
    ensures
        forall|i: int, j: int| 0 <= i < j < d.len() ==> d[i] < d[j],
    decreases d.len(),
{
    if d.len() > 1 {
        let e = d.drop_last();
        assert forall|k: int| 0 <= k < e.len() - 1 implies e[k] < #[trigger] e[k + 1] by {
            assert(d[k] < d[k + 1]);
        }
        lemma_steps_rise(e);
        assert forall|i: int, j: int| 0 <= i < j < d.len() implies d[i] < d[j] by {
            if j < d.len() - 1 {
                assert(e[i] < e[j]);
            } else {
                let k = j - 1;
                assert(d[k] < d[k + 1]);
                if i < k {
                    assert(e[i] < e[k]);
                }
            }
        }
    }
}

/// The degrees of each named scale rise within the octave.
pub proof fn lemma_named_degrees_rise(name: Seq<char>)
    requires
        scale_degrees(name) is Some,
    ensures
        forall|i: int, j: int|
            0 <= i < j < scale_degrees(name)->Some_0.len() ==> scale_degrees(name)->Some_0[i] < scale_degrees(
                name,
            )->Some_0[j],
        forall|i: int| 0 <= i < scale_degrees(name)->Some_0.len() ==> 0 <= #[trigger] scale_degrees(name)->Some_0[i] < 12,
{
    if name == seq!['m', 'a', 'j', 'o', 'r'] || name == seq!['i', 'o', 'n', 'i', 'a', 'n'] {
        let d = seq![0i32, 2, 4, 5, 7, 9, 11];
        assert(scale_degrees(name) == Some(d));
        assert(d[0] < d[1] && d[1] < d[2] && d[2] < d[3] && d[3] < d[4] && d[4] < d[5] && d[5] < d[6]);
        assert(0 <= d[0] < 12 && 0 <= d[1] < 12 && 0 <= d[2] < 12 && 0 <= d[3] < 12 && 0 <= d[4] < 12 && 0 <= d[5] < 12 && 0 <= d[6] < 12);
    } else if name == seq!['m', 'i', 'n', 'o', 'r'] || name == seq!['a', 'e', 'o', 'l', 'i', 'a', 'n'] {
        let d = seq![0i32, 2, 3, 5, 7, 8, 10];
        assert(scale_degrees(name) == Some(d));
        assert(d[0] < d[1] && d[1] < d[2] && d[2] < d[3] && d[3] < d[4] && d[4] < d[5] && d[5] < d[6]);
        assert(0 <= d[0] < 12 && 0 <= d[1] < 12 && 0 <= d[2] < 12 && 0 <= d[3] < 12 && 0 <= d[4] < 12 && 0 <= d[5] < 12 && 0 <= d[6] < 12);
    } else if name == seq!['d', 'o', 'r', 'i', 'a', 'n'] {
        let d = seq![0i32, 2, 3, 5, 7, 9, 10];
        assert(scale_degrees(name) == Some(d));
        assert(d[0] < d[1] && d[1] < d[2] && d[2] < d[3] && d[3] < d[4] && d[4] < d[5] && d[5] < d[6]);
        assert(0 <= d[0] < 12 && 0 <= d[1] < 12 && 0 <= d[2] < 12 && 0 <= d[3] < 12 && 0 <= d[4] < 12 && 0 <= d[5] < 12 && 0 <= d[6] < 12);
    } else if name == seq!['p', 'h', 'r', 'y', 'g', 'i', 'a', 'n'] {
        let d = seq![0i32, 1, 3, 5, 7, 8, 10];
        assert(scale_degrees(name) == Some(d));
        assert(d[0] < d[1] && d[1] < d[2] && d[2] < d[3] && d[3] < d[4] && d[4] < d[5] && d[5] < d[6]);
        assert(0 <= d[0] < 12 && 0 <= d[1] < 12 && 0 <= d[2] < 12 && 0 <= d[3] < 12 && 0 <= d[4] < 12 && 0 <= d[5] < 12 && 0 <= d[6] < 12);
    } else if name == seq!['l', 'y', 'd', 'i', 'a', 'n'] {
        let d = seq![0i32, 2, 4, 6, 7, 9, 11];
        assert(scale_degrees(name) == Some(d));
        assert(d[0] < d[1] && d[1] < d[2] && d[2] < d[3] && d[3] < d[4] && d[4] < d[5] && d[5] < d[6]);
        assert(0 <= d[0] < 12 && 0 <= d[1] < 12 && 0 <= d[2] < 12 && 0 <= d[3] < 12 && 0 <= d[4] < 12 && 0 <= d[5] < 12 && 0 <= d[6] < 12);
    } else if name == seq!['m', 'i', 'x', 'o', 'l', 'y', 'd', 'i', 'a', 'n'] {
        let d = seq![0i32, 2, 4, 5, 7, 9, 10];
        assert(scale_degrees(name) == Some(d));
        assert(d[0] < d[1] && d[1] < d[2] && d[2] < d[3] && d[3] < d[4] && d[4] < d[5] && d[5] < d[6]);
        assert(0 <= d[0] < 12 && 0 <= d[1] < 12 && 0 <= d[2] < 12 && 0 <= d[3] < 12 && 0 <= d[4] < 12 && 0 <= d[5] < 12 && 0 <= d[6] < 12);
    } else if name == seq!['l', 'o', 'c', 'r', 'i', 'a', 'n'] {
        let d = seq![0i32, 1, 3, 5, 6, 8, 10];
        assert(scale_degrees(name) == Some(d));
        assert(d[0] < d[1] && d[1] < d[2] && d[2] < d[3] && d[3] < d[4] && d[4] < d[5] && d[5] < d[6]);
        assert(0 <= d[0] < 12 && 0 <= d[1] < 12 && 0 <= d[2] < 12 && 0 <= d[3] < 12 && 0 <= d[4] < 12 && 0 <= d[5] < 12 && 0 <= d[6] < 12);
    } else if name == seq!['m', 'a', 'j', 'p', 'e', 'n', 't'] {
        let d = seq![0i32, 2, 4, 7, 9];
        assert(scale_degrees(name) == Some(d));
        assert(d[0] < d[1] && d[1] < d[2] && d[2] < d[3] && d[3] < d[4]);
        assert(0 <= d[0] < 12 && 0 <= d[1] < 12 && 0 <= d[2] < 12 && 0 <= d[3] < 12 && 0 <= d[4] < 12);
    } else if name == seq!['m', 'i', 'n', 'p', 'e', 'n', 't'] {
        let d = seq![0i32, 3, 5, 7, 10];
        assert(scale_degrees(name) == Some(d));
        assert(d[0] < d[1] && d[1] < d[2] && d[2] < d[3] && d[3] < d[4]);
        assert(0 <= d[0] < 12 && 0 <= d[1] < 12 && 0 <= d[2] < 12 && 0 <= d[3] < 12 && 0 <= d[4] < 12);
    } else if name == seq!['c', 'h', 'r', 'o', 'm', 'a', 't', 'i', 'c'] {
        let d = seq![0i32, 1, 2, 3, 4, 5, 6, 7, 8, 9, 10, 11];
        assert(scale_degrees(name) == Some(d));
        assert(d[0] < d[1] && d[1] < d[2] && d[2] < d[3] && d[3] < d[4] && d[4] < d[5] && d[5] < d[6] && d[6] < d[7] && d[7] < d[8] && d[8] < d[9] && d[9] < d[10] && d[10] < d[11]);
        assert(0 <= d[0] < 12 && 0 <= d[1] < 12 && 0 <= d[2] < 12 && 0 <= d[3] < 12 && 0 <= d[4] < 12 && 0 <= d[5] < 12 && 0 <= d[6] < 12 && 0 <= d[7] < 12 && 0 <= d[8] < 12 && 0 <= d[9] < 12 && 0 <= d[10] < 12 && 0 <= d[11] < 12);
    } else if name == seq!['w', 'h', 'o', 'l', 'e'] {
        let d = seq![0i32, 2, 4, 6, 8, 10];
        assert(scale_degrees(name) == Some(d));
        assert(d[0] < d[1] && d[1] < d[2] && d[2] < d[3] && d[3] < d[4] && d[4] < d[5]);
        assert(0 <= d[0] < 12 && 0 <= d[1] < 12 && 0 <= d[2] < 12 && 0 <= d[3] < 12 && 0 <= d[4] < 12 && 0 <= d[5] < 12);
    }
    let d = scale_degrees(name)->Some_0;
    assert forall|k: int| 0 <= k < d.len() - 1 implies d[k] < #[trigger] d[k + 1] by {}
    lemma_steps_rise(d);
}

/// Two rising lists with the same members are the same list.
proof fn lemma_rising_same_members(a: Seq<i32>, b: Seq<i32>)
    requires
        forall|i: int, j: int| 0 <= i < j < a.len() ==> a[i] < a[j],
        forall|i: int, j: int| 0 <= i < j < b.len() ==> b[i] < b[j],
        forall|x: i32| a.contains(x) <==> b.contains(x),
    ensures
        a == b,
    decreases a.len(),
{
    if a.len() == 0 {
        if b.len() > 0 {
            assert(b.contains(b[0]));
        }
        assert(a =~= b);
    } else {
        assert(a.contains(a[0]));
        assert(b.contains(a[0]));
        let jb = choose|j: int| 0 <= j < b.len() && b[j] == a[0];
        assert(b.contains(b[0]));
        let ja = choose|j: int| 0 <= j < a.len() && a[j] == b[0];
        assert(a[0] == b[0]) by {
            if ja > 0 {
                assert(a[0] < a[ja]);
            }
            if jb > 0 {
                assert(b[0] < b[jb]);
            }
        }
        let a1 = a.drop_first();
        let b1 = b.drop_first();
        assert forall|x: i32| a1.contains(x) <==> b1.contains(x) by {
            if a1.contains(x) {
                let i = choose|i: int| 0 <= i < a1.len() && a1[i] == x;
                assert(a[i + 1] == x && a[0] < a[i + 1]);
                assert(b.contains(x));
                let j = choose|j: int| 0 <= j < b.len() && b[j] == x;
                assert(j > 0);
                assert(b1[j - 1] == x);
            }
            if b1.contains(x) {
                let i = choose|i: int| 0 <= i < b1.len() && b1[i] == x;
                assert(b[i + 1] == x && b[0] < b[i + 1]);
                assert(a.contains(x));
                let j = choose|j: int| 0 <= j < a.len() && a[j] == x;
                assert(j > 0);
                assert(a1[j - 1] == x);
            }
        }
        lemma_rising_same_members(a1, b1);
        assert(a =~= seq![a[0]] + a1);
        assert(b =~= seq![b[0]] + b1);
    }
}

/// The scale of degrees that already rise within the octave is those
/// degrees.
pub proof fn lemma_scale_of_rising(s: Seq<i32>, d: Seq<i32>)
    requires
        is_scale_of(s, d),
        forall|i: int, j: int| 0 <= i < j < d.len() ==> d[i] < d[j],
        forall|i: int| 0 <= i < d.len() ==> 0 <= #[trigger] d[i] < 12,
    ensures
        s == d,
{
    assert forall|x: i32| s.contains(x) <==> d.contains(x) by {
        if s.contains(x) {
            let i = choose|i: int| 0 <= i < s.len() && s[i] == x;
            assert(0 <= x < 12);
            assert(covers(d, x as int));
            let j = choose|j: int| 0 <= j < d.len() && (#[trigger] d[j] as int) % 12 == x as int;
            assert(d[j] == x);
        }
        if d.contains(x) {
            let j = choose|j: int| 0 <= j < d.len() && d[j] == x;
            assert((d[j] as int) % 12 == x as int);
            assert(covers(d, x as int));
        }
    }
    lemma_rising_same_members(s, d);
}

/// Degrees that land on the same semitones of the octave make the same
/// scale, whatever their order, repetitions and octaves: `new(&[7, 0, 4,
/// 12, -8])` is `new(&[0, 4, 7])`.
pub proof fn lemma_same_semitones_same_scale(s1: Seq<i32>, d1: Seq<i32>, s2: Seq<i32>, d2: Seq<i32>)
    requires
        is_scale_of(s1, d1),
        is_scale_of(s2, d2),
        forall|k: int| 0 <= k < 12 ==> (covers(d1, k) <==> covers(d2, k)),
    ensures
        s1 == s2,
{
    assert forall|x: i32| s1.contains(x) <==> s2.contains(x) by {
        if s1.contains(x) {
            let i = choose|i: int| 0 <= i < s1.len() && s1[i] == x;
            assert(0 <= s1[i] < 12);
            assert(covers(d1, x as int));
        }
        if s2.contains(x) {
            let i = choose|i: int| 0 <= i < s2.len() && s2[i] == x;
            assert(0 <= s2[i] < 12);
            assert(covers(d2, x as int));
        }
    }
    lemma_increasing_runs_equal(s1, s2);
}

/// A scale built from at least one degree has at least one semitone.
pub proof fn lemma_scale_not_empty(s: Seq<i32>, degrees: Seq<i32>)
    requires
        is_scale_of(s, degrees),
        degrees.len() > 0,
    ensures
        s.len() > 0,
{
    let k = (degrees[0] as int) % 12;
    assert(covers(degrees, k));
    assert(s.contains(k as i32));
}

/// The pitch `c` is a note of the scale whose semitones are `ints`.
pub open spec fn in_scale(ints: Seq<i32>, c: int) -> bool {
    exists|k: int| 0 <= k < ints.len() && c % 12 == ints[k]
}

/// Twice the distance from the note `c` to the pitch `twice / 2`.
pub open spec fn twice_distance(c: int, twice: int) -> int {
    if 2 * c >= twice {
        2 * c - twice
    } else {
        twice - 2 * c
    }
}

/// The note `n` is nearer to the pitch `twice / 2` than `c`, or as near and
/// not above it.
pub open spec fn nearer(n: int, c: int, twice: int) -> bool {
    twice_distance(n, twice) < twice_distance(c, twice) || (twice_distance(n, twice) == twice_distance(c, twice)
        && n <= c)
}

/// The note in octave `o` around the octave `b` (of the pitch), at
/// semitone `iv`.
spec fn candidate(b: int, o: int, iv: int) -> int {
    12 * b + 12 * o + iv
}

/// A note of the scale outside the octaves just below, at and just above
/// that of the pitch is farther from it than the note of the same
/// semitone in the nearest of those octaves.
proof fn lemma_far_notes_lose(ints: Seq<i32>, c: int, twice: int, b: int)
    requires
        24 * b <= twice < 24 * b + 24,
        0 <= c % 12 < 12,
        !(-1 <= c / 12 - b <= 1),
    ensures
        ({
            let o = if c / 12 - b < -1 { -1int } else { 1int };
            twice_distance(candidate(b, o, c % 12), twice) < twice_distance(c, twice)
        }),
{
    let q = c / 12;
    let r = c % 12;
    vstd::arithmetic::div_mod::lemma_fundamental_div_mod(c, 12);
    assert(c == 12 * q + r);
}

proof fn lemma_candidate_mod(b: int, o: int, iv: int)
    requires
        0 <= iv < 12,
    ensures
        candidate(b, o, iv) % 12 == iv,
        candidate(b, o, iv) / 12 == b + o,
{
    vstd::arithmetic::div_mod::lemma_fundamental_div_mod(candidate(b, o, iv), 12);
    let x = candidate(b, o, iv);
    assert(x == 12 * (b + o) + iv);
    vstd::arithmetic::div_mod::lemma_mod_multiples_vanish(b + o, iv, 12);
    vstd::arithmetic::div_mod::lemma_div_multiples_vanish_fancy(b + o, iv, 12);
}

impl ScaleQuantizer {
    /// The note of the scale nearest to the pitch `twice / 2` (counted in
    /// semitones, `twice` the pitch rounded up to a half semitone), the
    /// lower of two notes as near: nearer than every other note of the
    /// scale, or as near and below it.
    pub fn nearest_note(&self, twice: i64) -> (n: i64)
        requires
            self.spec_intervals().len() > 0,
            forall|i: int| 0 <= i < self.spec_intervals().len() ==> 0 <= #[trigger] self.spec_intervals()[i] < 12,
            -0x1000_0000_0000_0000 <= twice <= 0x1000_0000_0000_0000,
        ensures
            in_scale(self.spec_intervals(), n as int),
            forall|c: int| in_scale(self.spec_intervals(), c) ==> nearer(n as int, c, twice as int),
    {
        let ghost ints = self.intervals@;
        let b: i64 = if twice >= 0 {
            twice / 24
        } else {
            -((-twice + 23) / 24)
        };
        assert(24 * b <= twice < 24 * b + 24);
        let base = b * 12;
        let len = self.intervals.len();
        let mut best: i64 = base + self.intervals[0] as i64;
        proof {
            lemma_candidate_mod(b as int, 0, ints[0] as int);
            assert(best == candidate(b as int, 0, ints[0] as int));
        }
        let mut best_distance: i64 = if 2 * best >= twice {
            2 * best - twice
        } else {
            twice - 2 * best
        };
        let mut o: i64 = -1;
        while o <= 1
            invariant
                -1 <= o <= 2,
                ints == self.intervals@,
                len == ints.len(),
                len > 0,
                forall|i: int| 0 <= i < ints.len() ==> 0 <= #[trigger] ints[i] < 12,
                24 * b <= twice < 24 * b + 24,
                -0x1000_0000_0000_0000 <= twice <= 0x1000_0000_0000_0000,
                base == 12 * b,
                best_distance == twice_distance(best as int, twice as int),
                in_scale(ints, best as int),
                forall|p: int, k: int|
                    -1 <= p < o && 0 <= k < ints.len() ==> nearer(
                        best as int,
                        #[trigger] candidate(b as int, p, ints[k] as int),
                        twice as int,
                    ),
            decreases 2 - o,
        {
            let mut k: usize = 0;
            while k < len
                invariant
                    -1 <= o <= 1,
                    k <= len,
                    ints == self.intervals@,
                    len == ints.len(),
                    forall|i: int| 0 <= i < ints.len() ==> 0 <= #[trigger] ints[i] < 12,
                    24 * b <= twice < 24 * b + 24,
                    -0x1000_0000_0000_0000 <= twice <= 0x1000_0000_0000_0000,
                    base == 12 * b,
                    best_distance == twice_distance(best as int, twice as int),
                    in_scale(ints, best as int),
                    forall|p: int, j: int|
                        ((-1 <= p < o && 0 <= j < ints.len()) || (p == o && 0 <= j < k)) ==> nearer(
                            best as int,
                            #[trigger] candidate(b as int, p, ints[j] as int),
                            twice as int,
                        ),
                decreases len - k,
            {
                let iv = self.intervals[k] as i64;
                let cand = base + o * 12 + iv;
                assert(cand == candidate(b as int, o as int, ints[k as int] as int));
                let d = if 2 * cand >= twice {
                    2 * cand - twice
                } else {
                    twice - 2 * cand
                };
                if d < best_distance || (d == best_distance && cand < best) {
                    best = cand;
                    best_distance = d;
                    proof {
                        lemma_candidate_mod(b as int, o as int, iv as int);
                        assert(ints[k as int] == iv);
                    }
                }
                k = k + 1;
            }
            o = o + 1;
        }
        proof {
            assert forall|c: int| in_scale(ints, c) implies nearer(best as int, c, twice as int) by {
                let kk = choose|kk: int| 0 <= kk < ints.len() && c % 12 == ints[kk];
                let q = c / 12;
                vstd::arithmetic::div_mod::lemma_fundamental_div_mod(c, 12);
                if -1 <= q - b <= 1 {
                    assert(c == candidate(b as int, q - b, ints[kk] as int));
                } else {
                    lemma_far_notes_lose(ints, c, twice as int, b as int);
                    let oo = if q - b < -1 { -1int } else { 1int };
                    assert(nearer(best as int, candidate(b as int, oo, ints[kk] as int), twice as int));
                }
            }
        }
        best
    }
}

} // verus!
