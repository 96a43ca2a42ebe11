//! Tokens of the program text that name constants: notes such as `a4` or
//! `C#3`, and the oscillators that a fixed frequency can be folded into.
use crate::scale::{parse_i32, parse_signed};
use crate::text::chars_of;
use crate::vocabulary::{lemma_listed_words_name_their_op, op_words, spec_named_op, NamedOp};
use vstd::prelude::*;

verus! {

/// The semitone of a note name within its octave, C being 0, in either
/// case.
pub open spec fn spec_note_semitone(note: char) -> Option<i32> {
    if note == 'c' || note == 'C' {
        Some(0)
    } else if note == 'd' || note == 'D' {
        Some(2)
    } else if note == 'e' || note == 'E' {
        Some(4)
    } else if note == 'f' || note == 'F' {
        Some(5)
    } else if note == 'g' || note == 'G' {
        Some(7)
    } else if note == 'a' || note == 'A' {
        Some(9)
    } else if note == 'b' || note == 'B' {
        Some(11)
    } else {
        None
    }
}

/// The semitone of a note name within its octave.
pub fn note_name_semitone(note: char) -> (r: Option<i32>)
    ensures
        r == spec_note_semitone(note),
{
    match note {
        'c' | 'C' => Some(0),
        'd' | 'D' => Some(2),
        'e' | 'E' => Some(4),
        'f' | 'F' => Some(5),
        'g' | 'G' => Some(7),
        'a' | 'A' => Some(9),
        'b' | 'B' => Some(11),
        _ => None,
    }
}

/// The note names are the naturals of C major: `c` is 0, and each next
/// name up, `d e f g a b`, lies a whole step higher, but for the half steps
/// `e`-`f` and `b` to the next octave's `c`. A name means the same in either
/// case, and no other character names a note.
pub proof fn lemma_names_are_c_major(ch: char)
    ensures
        spec_note_semitone('c') == Some(0i32),
        spec_note_semitone('d') is Some && spec_note_semitone('d')->Some_0 == spec_note_semitone('c')->Some_0 + 2,
        spec_note_semitone('e') is Some && spec_note_semitone('e')->Some_0 == spec_note_semitone('d')->Some_0 + 2,
        spec_note_semitone('f') is Some && spec_note_semitone('f')->Some_0 == spec_note_semitone('e')->Some_0 + 1,
        spec_note_semitone('g') is Some && spec_note_semitone('g')->Some_0 == spec_note_semitone('f')->Some_0 + 2,
        spec_note_semitone('a') is Some && spec_note_semitone('a')->Some_0 == spec_note_semitone('g')->Some_0 + 2,
        spec_note_semitone('b') is Some && spec_note_semitone('b')->Some_0 == spec_note_semitone('a')->Some_0 + 2,
        spec_note_semitone('b')->Some_0 + 1 == 12,
        'A' <= ch <= 'Z' ==> spec_note_semitone(ch) == spec_note_semitone(((ch as u32) + 32) as char),
        spec_note_semitone(ch) is Some <==> ('a' <= ch <= 'g' || 'A' <= ch <= 'G'),
{
}

/// A note written as a constant: the MIDI number it names, and whether it
/// stands for the note's frequency (a lower-case name) rather than for its
/// MIDI number.
#[derive(Clone, Copy, Debug, PartialEq, Eq, Structural)]
pub struct NoteConstant {
    pub midi: i32,
    pub frequency: bool,
}

/// A note constant: a note name `a`..`g` in either case, an optional `#`
/// (a semitone up) or `b` (down), then an octave as an `i32` with an
/// optional sign; octave `o` starts at MIDI number `(o + 1) * 12`. `None`
/// for any other token, and where the number leaves the `i32` range.
pub open spec fn spec_note_constant(t: Seq<char>) -> Option<NoteConstant> {
    if t.len() == 0 {
        None
    } else {
        match spec_note_semitone(t[0]) {
            None => None,
            Some(semitone) => {
                let (shifted, rest) = if t.len() > 1 && t[1] == '#' {
                    (semitone + 1, t.skip(2))
                } else if t.len() > 1 && t[1] == 'b' {
                    (semitone - 1, t.skip(2))
                } else {
                    (semitone as int, t.skip(1))
                };
                match parse_i32(rest) {
                    None => None,
                    Some(octave) => {
                        let midi = (octave + 1) * 12 + shifted;
                        if i32::MIN <= midi <= i32::MAX {
                            Some(NoteConstant { midi: midi as i32, frequency: 'a' <= t[0] <= 'z' })
                        } else {
                            None
                        }
                    },
                }
            },
        }
    }
}

/// A `#` after the note name raises the note a semitone and a `b` lowers it,
/// the octave after them being the same; the name's case alone says whether
/// the constant is a frequency.
pub proof fn lemma_accidentals(name: char, octave: Seq<char>)
    requires
        spec_note_semitone(name) is Some,
        octave.len() > 0,
        octave[0] != '#' && octave[0] != 'b',
        -1000 <= parse_i32(octave)->Some_0 <= 1000,
    ensures
        ({
            let natural = spec_note_constant(seq![name] + octave);
            let sharp = spec_note_constant(seq![name, '#'] + octave);
            let flat = spec_note_constant(seq![name, 'b'] + octave);
            &&& natural is Some <==> parse_i32(octave) is Some
            &&& sharp is Some <==> parse_i32(octave) is Some
            &&& flat is Some <==> parse_i32(octave) is Some
            &&& natural is Some ==> {
                &&& natural->Some_0.midi == (parse_i32(octave)->Some_0 + 1) * 12 + spec_note_semitone(name)->Some_0
                &&& sharp->Some_0.midi == natural->Some_0.midi + 1
                &&& flat->Some_0.midi == natural->Some_0.midi - 1
                &&& natural->Some_0.frequency == ('a' <= name <= 'z')
                &&& sharp->Some_0.frequency == natural->Some_0.frequency
                &&& flat->Some_0.frequency == natural->Some_0.frequency
            }
        }),
{
    assert((seq![name] + octave).skip(1) =~= octave);
    assert((seq![name, '#'] + octave).skip(2) =~= octave);
    assert((seq![name, 'b'] + octave).skip(2) =~= octave);
    assert((seq![name] + octave)[1] == octave[0]);
}

/// The note a token names as a constant, if it names one.
pub fn parse_note_constant(token: &str) -> (r: Option<NoteConstant>)
    ensures
        r == spec_note_constant(token@),
{
    let t = chars_of(token);
    if t.len() == 0 {
        return None;
    }
    let note = t[0];
    let semitone = match note_name_semitone(note) {
        Some(s) => s,
        None => {
            return None;
        },
    };
    let (shifted, start): (i64, usize) = if t.len() > 1 && t[1] == '#' {
        (semitone as i64 + 1, 2)
    } else if t.len() > 1 && t[1] == 'b' {
        (semitone as i64 - 1, 2)
    } else {
        (semitone as i64, 1)
    };
    assert(t@.skip(start as int) =~= t@.subrange(start as int, t@.len() as int));
    if start >= t.len() {
        assert(t@.skip(start as int).len() == 0);
        return None;
    }
    let octave = match parse_signed(t.as_slice(), start, t.len()) {
        Some(o) => o,
        None => {
            return None;
        },
    };
    let midi: i64 = (octave as i64 + 1) * 12 + shifted;
    if midi < i32::MIN as i64 || midi > i32::MAX as i64 {
        return None;
    }
    Some(NoteConstant { midi: midi as i32, frequency: 'a' <= note && note <= 'z' })
}

/// An oscillator that a constant frequency before it can be folded into.
#[derive(Clone, Copy, Debug, PartialEq, Eq, Structural)]
pub enum Waveform {
    Cosine,
    CosineFast,
    Sine,
    SineFast,
    Triangle,
}

/// The oscillator a token names: `c`, `c'`, `s`, `s'` or `t`.
pub open spec fn spec_waveform(op: Seq<char>) -> Option<Waveform> {
    if op == seq!['c'] {
        Some(Waveform::Cosine)
    } else if op == seq!['c', '\''] {
        Some(Waveform::CosineFast)
    } else if op == seq!['s'] {
        Some(Waveform::Sine)
    } else if op == seq!['s', '\''] {
        Some(Waveform::SineFast)
    } else if op == seq!['t'] {
        Some(Waveform::Triangle)
    } else {
        None
    }
}

impl Waveform {
    /// The oscillator an op names, if it names one.
    pub fn from_oscillator(op: &str) -> (r: Option<Self>)
        ensures
            r == spec_waveform(op@),
    {
        let t = chars_of(op);
        let r = if t.len() == 1 {
            if t[0] == 'c' {
                Some(Waveform::Cosine)
            } else if t[0] == 's' {
                Some(Waveform::Sine)
            } else if t[0] == 't' {
                Some(Waveform::Triangle)
            } else {
                None
            }
        } else if t.len() == 2 && t[1] == '\'' {
            if t[0] == 'c' {
                Some(Waveform::CosineFast)
            } else if t[0] == 's' {
                Some(Waveform::SineFast)
            } else {
                None
            }
        } else {
            None
        };
        proof {
            let v = t@;
            if v.len() == 1 {
                assert(v == seq![v[0]]);
            }
            if v.len() == 2 {
                assert(v == seq![v[0], v[1]]);
            }
            if v == seq!['c'] || v == seq!['s'] || v == seq!['t'] {
                assert(v.len() == 1);
            }
            if v == seq!['c', '\''] || v == seq!['s', '\''] {
                assert(v.len() == 2 && v[1] == '\'');
            }
        }
        r
    }
}

/// The oscillator word a waveform comes from: each waveform is named by the
/// word of its oscillator op.
pub open spec fn oscillator_op(w: Waveform) -> NamedOp {
    match w {
        Waveform::Cosine => NamedOp::CosineOsc,
        Waveform::CosineFast => NamedOp::CosineOscFast,
        Waveform::Sine => NamedOp::SineOsc,
        Waveform::SineFast => NamedOp::SineOscFast,
        Waveform::Triangle => NamedOp::TriangleOsc,
    }
}

/// A word names a waveform exactly where it names that waveform's
/// oscillator: `c`, `c'`, `s`, `s'` and `t` are the cosine, fast cosine,
/// sine, fast sine and triangle oscillators.
pub proof fn lemma_waveforms_are_oscillators(op: Seq<char>, w: Waveform)
    ensures
        spec_waveform(op) == Some(w) ==> spec_named_op(op) == Some(oscillator_op(w)),
        spec_named_op(op) == Some(oscillator_op(w)) ==> spec_waveform(op) == Some(w),
{
    lemma_listed_words_name_their_op(NamedOp::CosineOsc, 0);
    lemma_listed_words_name_their_op(NamedOp::CosineOscFast, 0);
    lemma_listed_words_name_their_op(NamedOp::SineOsc, 0);
    lemma_listed_words_name_their_op(NamedOp::SineOscFast, 0);
    lemma_listed_words_name_their_op(NamedOp::TriangleOsc, 0);
    if spec_named_op(op) == Some(oscillator_op(w)) {
        crate::vocabulary::lemma_named_words_are_listed(op, oscillator_op(w));
        assert(op_words(oscillator_op(w)).len() == 1);
        assert(op == op_words(oscillator_op(w))[0]);
    }
}

} // verus!
