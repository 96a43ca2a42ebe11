//! The messages and options of the audio server.
use crate::program::TextOp;
use crate::text::{chars_eq, chars_of};
use crate::words::{parse_usize, spec_parse_usize};
use vstd::prelude::*;

verus! {

/// Which MIDI input the server connects to.
pub enum MidiInputSelection {
    NoInput,
    Auto,
    Match(String),
}

impl MidiInputSelection {
    /// No MIDI input.
    pub fn default_selection() -> (r: Self)
        ensures
            r is NoInput,
    {
        MidiInputSelection::NoInput
    }
}

impl MidiInputSelection {
    /// The selection a `--midi` argument asks for: none without the
    /// argument, `Auto` for `auto`, else a query.
    pub fn from_argument(argument: Option<String>) -> (r: Self)
        ensures
            argument is None ==> r is NoInput,
            argument matches Some(a) ==> if a@ == "auto"@ {
                r is Auto
            } else {
                r matches MidiInputSelection::Match(q) && q@ == a@
            },
    {
        match argument {
            None => MidiInputSelection::NoInput,
            Some(a) => {
                let chars = chars_of(a.as_str());
                let auto = chars_of("auto");
                proof {
                    reveal_strlit("auto");
                }
                if chars_eq(chars.as_slice(), auto.as_slice()) {
                    MidiInputSelection::Auto
                } else {
                    MidiInputSelection::Match(a)
                }
            },
        }
    }
}

/// How the audio server starts.
pub struct Options {
    pub midi: MidiInputSelection,
}

impl Options {
    /// No MIDI input.
    pub fn new() -> (r: Self)
        ensures
            r.midi is NoInput,
    {
        Options { midi: MidiInputSelection::NoInput }
    }
}

/// A message to the audio server.
pub enum Msg {
    Play(bool),
    Record(bool),
    LoadProgram(Vec<TextOp>),
    Monitor(u64),
    PatternMonitors(Vec<u64>),
    Oscilloscope(bool),
    Quit,
}

/// What `str::to_lowercase` makes of a text: the Unicode lower-case mapping
/// of each character, a final capital sigma by its place in the word.
pub uninterp spec fn lowercase(s: Seq<char>) -> Seq<char>;

/// `str::to_lowercase`.
#[verifier::external_body]
fn to_lowercase(s: &str) -> (r: String)
    ensures
        r@ == lowercase(s@),
{
    s.to_lowercase()
}

/// Whether `needle` occurs in `hay` at `i`.
pub open spec fn occurs_at(hay: Seq<char>, needle: Seq<char>, i: int) -> bool {
    0 <= i && i + needle.len() <= hay.len() && hay.subrange(i, i + needle.len()) == needle
}

/// Whether `needle` occurs in `hay`, as `str::contains` tells.
pub open spec fn occurs_in(hay: Seq<char>, needle: Seq<char>) -> bool {
    exists|i: int| occurs_at(hay, needle, i)
}

/// Whether `needle` occurs in `hay`.
pub fn contains_chars(hay: &[char], needle: &[char]) -> (r: bool)
    ensures
        r == occurs_in(hay@, needle@),
{
    let n = hay.len();
    let m = needle.len();
    if m > n {
        assert forall|i: int| !occurs_at(hay@, needle@, i) by {}
        return false;
    }
    let mut i: usize = 0;
    while i <= n - m
        invariant
            m <= n,
            n == hay@.len(),
            m == needle@.len(),
            forall|k: int| 0 <= k < i ==> !occurs_at(hay@, needle@, k),
        decreases n - m + 1 - i,
    {
        let mut j: usize = 0;
        while j < m && hay[i + j] == needle[j]
            invariant
                j <= m,
                i + m <= n,
                n == hay@.len(),
                m == needle@.len(),
                forall|k: int| 0 <= k < j ==> hay@[i + k] == needle@[k],
            decreases m - j,
        {
            j = j + 1;
        }
        if j == m {
            assert(hay@.subrange(i as int, i + m) =~= needle@);
            assert(occurs_at(hay@, needle@, i as int));
            return true;
        }
        assert(hay@.subrange(i as int, i + m)[j as int] != needle@[j as int]);
        i = i + 1;
    }
    assert forall|k: int| !occurs_at(hay@, needle@, k) by {
        if occurs_at(hay@, needle@, k) {
            assert(k < i);
        }
    }
    false
}

/// No MIDI input's name holds the query (lower-cased).
pub struct NoMatchingInput {
    pub query: String,
}

/// Whether input `i` is the first whose lower-cased name holds `query`.
pub open spec fn first_match(names: Seq<String>, query: Seq<char>, i: int) -> bool {
    &&& 0 <= i < names.len()
    &&& occurs_in(lowercase(names[i]@), query)
    &&& forall|j: int| 0 <= j < i ==> !occurs_in(lowercase(#[trigger] names[j]@), query)
}

/// The MIDI input a selection picks among the inputs with these names, in
/// order: none for `NoInput`; the first for `Auto`; for a query that reads
/// as a number, the input at that index, if there is one; for any other
/// query, the first input whose lower-cased name holds the lower-cased
/// query, and an error when there is none.
pub fn select_input(names: &[String], selection: &MidiInputSelection) -> (r: Result<Option<usize>, NoMatchingInput>)
    ensures
        selection is NoInput ==> r matches Ok(None),
        selection is Auto ==> (r matches Ok(p) && p == (if names@.len() > 0 {
            Some(0usize)
        } else {
            None
        })),
        selection matches MidiInputSelection::Match(q) ==> match spec_parse_usize(q@) {
            Some(i) => (r matches Ok(p) && p == (if i < names@.len() {
                Some(i)
            } else {
                None
            })),
            None => {
                &&& (exists|j: int| 0 <= j < names@.len() && occurs_in(lowercase(#[trigger] names@[j]@), lowercase(q@)))
                    ==> (r matches Ok(Some(i)) && first_match(names@, lowercase(q@), i as int))
                &&& (forall|j: int| 0 <= j < names@.len() ==> !occurs_in(lowercase(#[trigger] names@[j]@), lowercase(q@)))
                    ==> (r matches Err(e) && e.query@ == lowercase(q@))
            },
        },
{
    match selection {
        MidiInputSelection::NoInput => Ok(None),
        MidiInputSelection::Auto => {
            if names.len() > 0 {
                Ok(Some(0))
            } else {
                Ok(None)
            }
        },
        MidiInputSelection::Match(q) => {
            let qc = chars_of(q.as_str());
            match parse_usize(qc.as_slice()) {
                Some(i) => {
                    if i < names.len() {
                        Ok(Some(i))
                    } else {
                        Ok(None)
                    }
                },
                None => {
                    let query = to_lowercase(q.as_str());
                    let qv = chars_of(query.as_str());
                    let mut j: usize = 0;
                    while j < names.len()
                        invariant
                            j <= names@.len(),
                            qv@ == lowercase(q@),
                            selection is Match,
                            selection->Match_0 == *q,
                            spec_parse_usize(q@) is None,
                            forall|k: int| 0 <= k < j ==> !occurs_in(lowercase(#[trigger] names@[k]@), lowercase(q@)),
                        decreases names@.len() - j,
                    {
                        let name = to_lowercase(names[j].as_str());
                        let nv = chars_of(name.as_str());
                        if contains_chars(nv.as_slice(), qv.as_slice()) {
                            return Ok(Some(j));
                        }
                        j = j + 1;
                    }
                    Err(NoMatchingInput { query })
                },
            }
        },
    }
}

} // verus!
