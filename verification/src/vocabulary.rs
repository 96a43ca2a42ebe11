//! The vocabulary of programs: the words that name an op of their own, the
//! words with arguments (`name:first:second`), and how a word is read.
use crate::text::{trim, trimmed};
use crate::text::{chars_eq, chars_of};
use crate::words::{lemma_split_on_nonempty, lemma_split_on_pair, parse_usize, spec_parse_usize, spec_variable_word, split_fields, split_on, variable_word, VarAccess};
use vstd::prelude::*;

verus! {

/// The ops that a word names by itself.
#[derive(Clone, Copy, Debug, PartialEq, Eq, Structural)]
pub enum NamedOp {
    /// `*`, `mul`
    Mul,
    /// `+`, `add`
    Add,
    /// `-`, `sub`
    Sub,
    /// `/`, `div`
    Div,
    /// `\`
    Recip,
    /// `^`, `pow`
    Pow,
    /// `%`, `mod`
    Mod,
    /// `adsr`
    Adsr,
    /// `amp2db`, `a2db`
    Amp2db,
    /// `c`
    CosineOsc,
    /// `c'`
    CosineOscFast,
    /// `cheb2`
    Cheb2,
    /// `cheb3`
    Cheb3,
    /// `cheb4`
    Cheb4,
    /// `cheb5`
    Cheb5,
    /// `cheb6`
    Cheb6,
    /// `circle`
    Circle,
    /// `clamp`
    Clamp,
    /// `clip`
    Clip,
    /// `cos`
    Cos,
    /// `cos'`
    CosFast,
    /// `cosh`
    Cosh,
    /// `cosine`
    Cosine,
    /// `cosine'`
    CosineFast,
    /// `cycle`, `cy`
    Cycle,
    /// `db2amp`, `db2a`
    Db2amp,
    /// `dm`, `dmetro`
    Dmetro,
    /// `dmh`, `dmetro_hold`
    DmetroHold,
    /// `dup`
    Dup,
    /// `exp`
    Exp,
    /// `biexp`
    Biexp,
    /// `expexp`
    Expexp,
    /// `explin`
    Explin,
    /// `f2m`, `freq2midi`
    Freq2midi,
    /// `bp`, `bqbpf`
    Bqbpf,
    /// `h`, `bqhpf`
    Bqhpf,
    /// `hpf`
    Hpf,
    /// `impulse`
    Impulse,
    /// `in`, `input`
    Input,
    /// `l`, `bqlpf`
    Bqlpf,
    /// `linexp`
    Linexp,
    /// `linlin`, `project`
    Project,
    /// `lpf`
    Lpf,
    /// `m`, `metro`
    Metro,
    /// `m2f`, `midi2freq`, `#`
    Midi2freq,
    /// `max`
    Max,
    /// `mh`, `metro_hold`
    MetroHold,
    /// `min`
    Min,
    /// `n`, `noise`, `whiteNoise`
    WhiteNoise,
    /// `notch`, `bqnotch`
    Bqnotch,
    /// `p`
    PulseOsc,
    /// `pan1`
    Pan1,
    /// `pan2`
    Pan2,
    /// `panx`
    Panx,
    /// `pi`
    Pi,
    /// `tau`
    Tau,
    /// `pitch`
    Pitch,
    /// `pop`
    Pop,
    /// `prime`
    Prime,
    /// `pulse`
    Pulse,
    /// `q`, `quantize`
    Quantize,
    /// `r`, `range`
    Range,
    /// `rot`
    Rot,
    /// `round`
    Round,
    /// `s`
    SineOsc,
    /// `s'`
    SineOscFast,
    /// `saw`
    Saw,
    /// `sh`, `sample&hold`
    SampleAndHold,
    /// `ssh`
    Ssh,
    /// `silence`
    Silence,
    /// `sin`
    Sin,
    /// `sin'`
    SinFast,
    /// `sinc`
    Sinc,
    /// `sinc'`
    SincFast,
    /// `sine`
    Sine,
    /// `sine'`
    SineFast,
    /// `sinh`
    Sinh,
    /// `spectral_shuffle`
    SpectralShuffle,
    /// `st1`
    St1,
    /// `spectral_reverse`
    SpectralReverse,
    /// `sr`
    Sr,
    /// `swap`
    Swap,
    /// `t`
    TriangleOsc,
    /// `tan`
    Tan,
    /// `tan'`
    TanFast,
    /// `tanh`
    Tanh,
    /// `tri`
    Tri,
    /// `tline`
    Tline,
    /// `tquad`
    Tquad,
    /// `uniexp`
    Uniexp,
    /// `unit`
    Unit,
    /// `w`
    Phasor,
    /// `wah`
    Wah,
    /// `wrap`
    Wrap,
}

/// The op a word names by itself, if any.
pub open spec fn spec_named_op(w: Seq<char>) -> Option<NamedOp> {
    if w == "*"@ || w == "mul"@ {
        Some(NamedOp::Mul)
    } else if w == "+"@ || w == "add"@ {
        Some(NamedOp::Add)
    } else if w == "-"@ || w == "sub"@ {
        Some(NamedOp::Sub)
    } else if w == "/"@ || w == "div"@ {
        Some(NamedOp::Div)
    } else if w == "\\"@ {
        Some(NamedOp::Recip)
    } else if w == "^"@ || w == "pow"@ {
        Some(NamedOp::Pow)
    } else if w == "%"@ || w == "mod"@ {
        Some(NamedOp::Mod)
    } else if w == "adsr"@ {
        Some(NamedOp::Adsr)
    } else if w == "amp2db"@ || w == "a2db"@ {
        Some(NamedOp::Amp2db)
    } else if w == "c"@ {
        Some(NamedOp::CosineOsc)
    } else if w == "c'"@ {
        Some(NamedOp::CosineOscFast)
    } else if w == "cheb2"@ {
        Some(NamedOp::Cheb2)
    } else if w == "cheb3"@ {
        Some(NamedOp::Cheb3)
    } else if w == "cheb4"@ {
        Some(NamedOp::Cheb4)
    } else if w == "cheb5"@ {
        Some(NamedOp::Cheb5)
    } else if w == "cheb6"@ {
        Some(NamedOp::Cheb6)
    } else if w == "circle"@ {
        Some(NamedOp::Circle)
    } else if w == "clamp"@ {
        Some(NamedOp::Clamp)
    } else if w == "clip"@ {
        Some(NamedOp::Clip)
    } else if w == "cos"@ {
        Some(NamedOp::Cos)
    } else if w == "cos'"@ {
        Some(NamedOp::CosFast)
    } else if w == "cosh"@ {
        Some(NamedOp::Cosh)
    } else if w == "cosine"@ {
        Some(NamedOp::Cosine)
    } else if w == "cosine'"@ {
        Some(NamedOp::CosineFast)
    } else if w == "cycle"@ || w == "cy"@ {
        Some(NamedOp::Cycle)
    } else if w == "db2amp"@ || w == "db2a"@ {
        Some(NamedOp::Db2amp)
    } else if w == "dm"@ || w == "dmetro"@ {
        Some(NamedOp::Dmetro)
    } else if w == "dmh"@ || w == "dmetro_hold"@ {
        Some(NamedOp::DmetroHold)
    } else if w == "dup"@ {
        Some(NamedOp::Dup)
    } else if w == "exp"@ {
        Some(NamedOp::Exp)
    } else if w == "biexp"@ {
        Some(NamedOp::Biexp)
    } else if w == "expexp"@ {
        Some(NamedOp::Expexp)
    } else if w == "explin"@ {
        Some(NamedOp::Explin)
    } else if w == "f2m"@ || w == "freq2midi"@ {
        Some(NamedOp::Freq2midi)
    } else if w == "bp"@ || w == "bqbpf"@ {
        Some(NamedOp::Bqbpf)
    } else if w == "h"@ || w == "bqhpf"@ {
        Some(NamedOp::Bqhpf)
    } else if w == "hpf"@ {
        Some(NamedOp::Hpf)
    } else if w == "impulse"@ {
        Some(NamedOp::Impulse)
    } else if w == "in"@ || w == "input"@ {
        Some(NamedOp::Input)
    } else if w == "l"@ || w == "bqlpf"@ {
        Some(NamedOp::Bqlpf)
    } else if w == "linexp"@ {
        Some(NamedOp::Linexp)
    } else if w == "linlin"@ || w == "project"@ {
        Some(NamedOp::Project)
    } else if w == "lpf"@ {
        Some(NamedOp::Lpf)
    } else if w == "m"@ || w == "metro"@ {
        Some(NamedOp::Metro)
    } else if w == "m2f"@ || w == "midi2freq"@ || w == "#"@ {
        Some(NamedOp::Midi2freq)
    } else if w == "max"@ {
        Some(NamedOp::Max)
    } else if w == "mh"@ || w == "metro_hold"@ {
        Some(NamedOp::MetroHold)
    } else if w == "min"@ {
        Some(NamedOp::Min)
    } else if w == "n"@ || w == "noise"@ || w == "whiteNoise"@ {
        Some(NamedOp::WhiteNoise)
    } else if w == "notch"@ || w == "bqnotch"@ {
        Some(NamedOp::Bqnotch)
    } else if w == "p"@ {
        Some(NamedOp::PulseOsc)
    } else if w == "pan1"@ {
        Some(NamedOp::Pan1)
    } else if w == "pan2"@ {
        Some(NamedOp::Pan2)
    } else if w == "panx"@ {
        Some(NamedOp::Panx)
    } else if w == "pi"@ {
        Some(NamedOp::Pi)
    } else if w == "tau"@ {
        Some(NamedOp::Tau)
    } else if w == "pitch"@ {
        Some(NamedOp::Pitch)
    } else if w == "pop"@ {
        Some(NamedOp::Pop)
    } else if w == "prime"@ {
        Some(NamedOp::Prime)
    } else if w == "pulse"@ {
        Some(NamedOp::Pulse)
    } else if w == "q"@ || w == "quantize"@ {
        Some(NamedOp::Quantize)
    } else if w == "r"@ || w == "range"@ {
        Some(NamedOp::Range)
    } else if w == "rot"@ {
        Some(NamedOp::Rot)
    } else if w == "round"@ {
        Some(NamedOp::Round)
    } else if w == "s"@ {
        Some(NamedOp::SineOsc)
    } else if w == "s'"@ {
        Some(NamedOp::SineOscFast)
    } else if w == "saw"@ {
        Some(NamedOp::Saw)
    } else if w == "sh"@ || w == "sample&hold"@ {
        Some(NamedOp::SampleAndHold)
    } else if w == "ssh"@ {
        Some(NamedOp::Ssh)
    } else if w == "silence"@ {
        Some(NamedOp::Silence)
    } else if w == "sin"@ {
        Some(NamedOp::Sin)
    } else if w == "sin'"@ {
        Some(NamedOp::SinFast)
    } else if w == "sinc"@ {
        Some(NamedOp::Sinc)
    } else if w == "sinc'"@ {
        Some(NamedOp::SincFast)
    } else if w == "sine"@ {
        Some(NamedOp::Sine)
    } else if w == "sine'"@ {
        Some(NamedOp::SineFast)
    } else if w == "sinh"@ {
        Some(NamedOp::Sinh)
    } else if w == "spectral_shuffle"@ {
        Some(NamedOp::SpectralShuffle)
    } else if w == "st1"@ {
        Some(NamedOp::St1)
    } else if w == "spectral_reverse"@ {
        Some(NamedOp::SpectralReverse)
    } else if w == "sr"@ {
        Some(NamedOp::Sr)
    } else if w == "swap"@ {
        Some(NamedOp::Swap)
    } else if w == "t"@ {
        Some(NamedOp::TriangleOsc)
    } else if w == "tan"@ {
        Some(NamedOp::Tan)
    } else if w == "tan'"@ {
        Some(NamedOp::TanFast)
    } else if w == "tanh"@ {
        Some(NamedOp::Tanh)
    } else if w == "tri"@ {
        Some(NamedOp::Tri)
    } else if w == "tline"@ {
        Some(NamedOp::Tline)
    } else if w == "tquad"@ {
        Some(NamedOp::Tquad)
    } else if w == "uniexp"@ {
        Some(NamedOp::Uniexp)
    } else if w == "unit"@ {
        Some(NamedOp::Unit)
    } else if w == "w"@ {
        Some(NamedOp::Phasor)
    } else if w == "wah"@ {
        Some(NamedOp::Wah)
    } else if w == "wrap"@ {
        Some(NamedOp::Wrap)
    } else {
        None
    }
}

/// Whether two texts are the same.
fn same(a: &str, b: &str) -> (r: bool)
    ensures
        r == (a@ == b@),
{
    let x = chars_of(a);
    let y = chars_of(b);
    chars_eq(x.as_slice(), y.as_slice())
}

/// The words that name each op, as the vocabulary lists them: `-` and `sub`
/// subtract, `dup` duplicates the top frame, and so on.
pub open spec fn op_words(op: NamedOp) -> Seq<Seq<char>> {
    match op {
        NamedOp::Mul => seq![seq!['*'], seq!['m', 'u', 'l']],
        NamedOp::Add => seq![seq!['+'], seq!['a', 'd', 'd']],
        NamedOp::Sub => seq![seq!['-'], seq!['s', 'u', 'b']],
        NamedOp::Div => seq![seq!['/'], seq!['d', 'i', 'v']],
        NamedOp::Recip => seq![seq!['\\']],
        NamedOp::Pow => seq![seq!['^'], seq!['p', 'o', 'w']],
        NamedOp::Mod => seq![seq!['%'], seq!['m', 'o', 'd']],
        NamedOp::Adsr => seq![seq!['a', 'd', 's', 'r']],
        NamedOp::Amp2db => seq![seq!['a', 'm', 'p', '2', 'd', 'b'], seq!['a', '2', 'd', 'b']],
        NamedOp::CosineOsc => seq![seq!['c']],
        NamedOp::CosineOscFast => seq![seq!['c', '\'']],
        NamedOp::Cheb2 => seq![seq!['c', 'h', 'e', 'b', '2']],
        NamedOp::Cheb3 => seq![seq!['c', 'h', 'e', 'b', '3']],
        NamedOp::Cheb4 => seq![seq!['c', 'h', 'e', 'b', '4']],
        NamedOp::Cheb5 => seq![seq!['c', 'h', 'e', 'b', '5']],
        NamedOp::Cheb6 => seq![seq!['c', 'h', 'e', 'b', '6']],
        NamedOp::Circle => seq![seq!['c', 'i', 'r', 'c', 'l', 'e']],
        NamedOp::Clamp => seq![seq!['c', 'l', 'a', 'm', 'p']],
        NamedOp::Clip => seq![seq!['c', 'l', 'i', 'p']],
        NamedOp::Cos => seq![seq!['c', 'o', 's']],
        NamedOp::CosFast => seq![seq!['c', 'o', 's', '\'']],
        NamedOp::Cosh => seq![seq!['c', 'o', 's', 'h']],
        NamedOp::Cosine => seq![seq!['c', 'o', 's', 'i', 'n', 'e']],
        NamedOp::CosineFast => seq![seq!['c', 'o', 's', 'i', 'n', 'e', '\'']],
        NamedOp::Cycle => seq![seq!['c', 'y', 'c', 'l', 'e'], seq!['c', 'y']],
        NamedOp::Db2amp => seq![seq!['d', 'b', '2', 'a', 'm', 'p'], seq!['d', 'b', '2', 'a']],
        NamedOp::Dmetro => seq![seq!['d', 'm'], seq!['d', 'm', 'e', 't', 'r', 'o']],
        NamedOp::DmetroHold => seq![seq!['d', 'm', 'h'], seq!['d', 'm', 'e', 't', 'r', 'o', '_', 'h', 'o', 'l', 'd']],
        NamedOp::Dup => seq![seq!['d', 'u', 'p']],
        NamedOp::Exp => seq![seq!['e', 'x', 'p']],
        NamedOp::Biexp => seq![seq!['b', 'i', 'e', 'x', 'p']],
        NamedOp::Expexp => seq![seq!['e', 'x', 'p', 'e', 'x', 'p']],
        NamedOp::Explin => seq![seq!['e', 'x', 'p', 'l', 'i', 'n']],
        NamedOp::Freq2midi => seq![seq!['f', '2', 'm'], seq!['f', 'r', 'e', 'q', '2', 'm', 'i', 'd', 'i']],
        NamedOp::Bqbpf => seq![seq!['b', 'p'], seq!['b', 'q', 'b', 'p', 'f']],
        NamedOp::Bqhpf => seq![seq!['h'], seq!['b', 'q', 'h', 'p', 'f']],
        NamedOp::Hpf => seq![seq!['h', 'p', 'f']],
        NamedOp::Impulse => seq![seq!['i', 'm', 'p', 'u', 'l', 's', 'e']],
        NamedOp::Input => seq![seq!['i', 'n'], seq!['i', 'n', 'p', 'u', 't']],
        NamedOp::Bqlpf => seq![seq!['l'], seq!['b', 'q', 'l', 'p', 'f']],
        NamedOp::Linexp => seq![seq!['l', 'i', 'n', 'e', 'x', 'p']],
        NamedOp::Project => seq![seq!['l', 'i', 'n', 'l', 'i', 'n'], seq!['p', 'r', 'o', 'j', 'e', 'c', 't']],
        NamedOp::Lpf => seq![seq!['l', 'p', 'f']],
        NamedOp::Metro => seq![seq!['m'], seq!['m', 'e', 't', 'r', 'o']],
        NamedOp::Midi2freq => seq![seq!['m', '2', 'f'], seq!['m', 'i', 'd', 'i', '2', 'f', 'r', 'e', 'q'], seq!['#']],
        NamedOp::Max => seq![seq!['m', 'a', 'x']],
        NamedOp::MetroHold => seq![seq!['m', 'h'], seq!['m', 'e', 't', 'r', 'o', '_', 'h', 'o', 'l', 'd']],
        NamedOp::Min => seq![seq!['m', 'i', 'n']],
        NamedOp::WhiteNoise => seq![seq!['n'], seq!['n', 'o', 'i', 's', 'e'], seq!['w', 'h', 'i', 't', 'e', 'N', 'o', 'i', 's', 'e']],
        NamedOp::Bqnotch => seq![seq!['n', 'o', 't', 'c', 'h'], seq!['b', 'q', 'n', 'o', 't', 'c', 'h']],
        NamedOp::PulseOsc => seq![seq!['p']],
        NamedOp::Pan1 => seq![seq!['p', 'a', 'n', '1']],
        NamedOp::Pan2 => seq![seq!['p', 'a', 'n', '2']],
        NamedOp::Panx => seq![seq!['p', 'a', 'n', 'x']],
        NamedOp::Pi => seq![seq!['p', 'i']],
        NamedOp::Tau => seq![seq!['t', 'a', 'u']],
        NamedOp::Pitch => seq![seq!['p', 'i', 't', 'c', 'h']],
        NamedOp::Pop => seq![seq!['p', 'o', 'p']],
        NamedOp::Prime => seq![seq!['p', 'r', 'i', 'm', 'e']],
        NamedOp::Pulse => seq![seq!['p', 'u', 'l', 's', 'e']],
        NamedOp::Quantize => seq![seq!['q'], seq!['q', 'u', 'a', 'n', 't', 'i', 'z', 'e']],
        NamedOp::Range => seq![seq!['r'], seq!['r', 'a', 'n', 'g', 'e']],
        NamedOp::Rot => seq![seq!['r', 'o', 't']],
        NamedOp::Round => seq![seq!['r', 'o', 'u', 'n', 'd']],
        NamedOp::SineOsc => seq![seq!['s']],
        NamedOp::SineOscFast => seq![seq!['s', '\'']],
        NamedOp::Saw => seq![seq!['s', 'a', 'w']],
        NamedOp::SampleAndHold => seq![seq!['s', 'h'], seq!['s', 'a', 'm', 'p', 'l', 'e', '&', 'h', 'o', 'l', 'd']],
        NamedOp::Ssh => seq![seq!['s', 's', 'h']],
        NamedOp::Silence => seq![seq!['s', 'i', 'l', 'e', 'n', 'c', 'e']],
        NamedOp::Sin => seq![seq!['s', 'i', 'n']],
        NamedOp::SinFast => seq![seq!['s', 'i', 'n', '\'']],
        NamedOp::Sinc => seq![seq!['s', 'i', 'n', 'c']],
        NamedOp::SincFast => seq![seq!['s', 'i', 'n', 'c', '\'']],
        NamedOp::Sine => seq![seq!['s', 'i', 'n', 'e']],
        NamedOp::SineFast => seq![seq!['s', 'i', 'n', 'e', '\'']],
        NamedOp::Sinh => seq![seq!['s', 'i', 'n', 'h']],
        NamedOp::SpectralShuffle => seq![seq!['s', 'p', 'e', 'c', 't', 'r', 'a', 'l', '_', 's', 'h', 'u', 'f', 'f', 'l', 'e']],
        NamedOp::St1 => seq![seq!['s', 't', '1']],
        NamedOp::SpectralReverse => seq![seq!['s', 'p', 'e', 'c', 't', 'r', 'a', 'l', '_', 'r', 'e', 'v', 'e', 'r', 's', 'e']],
        NamedOp::Sr => seq![seq!['s', 'r']],
        NamedOp::Swap => seq![seq!['s', 'w', 'a', 'p']],
        NamedOp::TriangleOsc => seq![seq!['t']],
        NamedOp::Tan => seq![seq!['t', 'a', 'n']],
        NamedOp::TanFast => seq![seq!['t', 'a', 'n', '\'']],
        NamedOp::Tanh => seq![seq!['t', 'a', 'n', 'h']],
        NamedOp::Tri => seq![seq!['t', 'r', 'i']],
        NamedOp::Tline => seq![seq!['t', 'l', 'i', 'n', 'e']],
        NamedOp::Tquad => seq![seq!['t', 'q', 'u', 'a', 'd']],
        NamedOp::Uniexp => seq![seq!['u', 'n', 'i', 'e', 'x', 'p']],
        NamedOp::Unit => seq![seq!['u', 'n', 'i', 't']],
        NamedOp::Phasor => seq![seq!['w']],
        NamedOp::Wah => seq![seq!['w', 'a', 'h']],
        NamedOp::Wrap => seq![seq!['w', 'r', 'a', 'p']],
    }
}

#[verifier::rlimit(50)]
proof fn lemma_listed_words_part0()
    ensures
        forall|i: int| 0 <= i < op_words(NamedOp::Mul).len() ==> spec_named_op(#[trigger] op_words(NamedOp::Mul)[i]) == Some(NamedOp::Mul),
        forall|i: int| 0 <= i < op_words(NamedOp::Add).len() ==> spec_named_op(#[trigger] op_words(NamedOp::Add)[i]) == Some(NamedOp::Add),
        forall|i: int| 0 <= i < op_words(NamedOp::Sub).len() ==> spec_named_op(#[trigger] op_words(NamedOp::Sub)[i]) == Some(NamedOp::Sub),
        forall|i: int| 0 <= i < op_words(NamedOp::Div).len() ==> spec_named_op(#[trigger] op_words(NamedOp::Div)[i]) == Some(NamedOp::Div),
        forall|i: int| 0 <= i < op_words(NamedOp::Recip).len() ==> spec_named_op(#[trigger] op_words(NamedOp::Recip)[i]) == Some(NamedOp::Recip),
        forall|i: int| 0 <= i < op_words(NamedOp::Pow).len() ==> spec_named_op(#[trigger] op_words(NamedOp::Pow)[i]) == Some(NamedOp::Pow),
        forall|i: int| 0 <= i < op_words(NamedOp::Mod).len() ==> spec_named_op(#[trigger] op_words(NamedOp::Mod)[i]) == Some(NamedOp::Mod),
        forall|i: int| 0 <= i < op_words(NamedOp::Adsr).len() ==> spec_named_op(#[trigger] op_words(NamedOp::Adsr)[i]) == Some(NamedOp::Adsr),
{
    reveal_strlit("*");
    reveal_strlit("mul");
    reveal_strlit("+");
    reveal_strlit("add");
    reveal_strlit("-");
    reveal_strlit("sub");
    reveal_strlit("/");
    reveal_strlit("div");
    reveal_strlit("\\");
    reveal_strlit("^");
    reveal_strlit("pow");
    reveal_strlit("%");
    reveal_strlit("mod");
    reveal_strlit("adsr");
    assert(seq!['*'] =~= "*"@);
    assert(spec_named_op(seq!['*']) == Some(NamedOp::Mul));
    assert(seq!['m', 'u', 'l'] =~= "mul"@);
    assert(spec_named_op(seq!['m', 'u', 'l']) == Some(NamedOp::Mul));
    assert(seq!['+'] =~= "+"@);
    assert(seq!['+'] != "*"@) by { assert(seq!['+'][0] != "*"@[0]); }
    assert(spec_named_op(seq!['+']) == Some(NamedOp::Add));
    assert(seq!['a', 'd', 'd'] =~= "add"@);
    assert(seq!['a', 'd', 'd'] != "mul"@) by { assert(seq!['a', 'd', 'd'][0] != "mul"@[0]); }
    assert(spec_named_op(seq!['a', 'd', 'd']) == Some(NamedOp::Add));
    assert(seq!['-'] =~= "-"@);
    assert(seq!['-'] != "*"@) by { assert(seq!['-'][0] != "*"@[0]); }
    assert(seq!['-'] != "+"@) by { assert(seq!['-'][0] != "+"@[0]); }
    assert(spec_named_op(seq!['-']) == Some(NamedOp::Sub));
    assert(seq!['s', 'u', 'b'] =~= "sub"@);
    assert(seq!['s', 'u', 'b'] != "mul"@) by { assert(seq!['s', 'u', 'b'][0] != "mul"@[0]); }
    assert(seq!['s', 'u', 'b'] != "add"@) by { assert(seq!['s', 'u', 'b'][0] != "add"@[0]); }
    assert(spec_named_op(seq!['s', 'u', 'b']) == Some(NamedOp::Sub));
    assert(seq!['/'] =~= "/"@);
    assert(seq!['/'] != "*"@) by { assert(seq!['/'][0] != "*"@[0]); }
    assert(seq!['/'] != "+"@) by { assert(seq!['/'][0] != "+"@[0]); }
    assert(seq!['/'] != "-"@) by { assert(seq!['/'][0] != "-"@[0]); }
    assert(spec_named_op(seq!['/']) == Some(NamedOp::Div));
    assert(seq!['d', 'i', 'v'] =~= "div"@);
    assert(seq!['d', 'i', 'v'] != "mul"@) by { assert(seq!['d', 'i', 'v'][0] != "mul"@[0]); }
    assert(seq!['d', 'i', 'v'] != "add"@) by { assert(seq!['d', 'i', 'v'][0] != "add"@[0]); }
    assert(seq!['d', 'i', 'v'] != "sub"@) by { assert(seq!['d', 'i', 'v'][0] != "sub"@[0]); }
    assert(spec_named_op(seq!['d', 'i', 'v']) == Some(NamedOp::Div));
    assert(seq!['\\'] =~= "\\"@);
    assert(seq!['\\'] != "*"@) by { assert(seq!['\\'][0] != "*"@[0]); }
    assert(seq!['\\'] != "+"@) by { assert(seq!['\\'][0] != "+"@[0]); }
    assert(seq!['\\'] != "-"@) by { assert(seq!['\\'][0] != "-"@[0]); }
    assert(seq!['\\'] != "/"@) by { assert(seq!['\\'][0] != "/"@[0]); }
    assert(spec_named_op(seq!['\\']) == Some(NamedOp::Recip));
    assert(seq!['^'] =~= "^"@);
    assert(seq!['^'] != "*"@) by { assert(seq!['^'][0] != "*"@[0]); }
    assert(seq!['^'] != "+"@) by { assert(seq!['^'][0] != "+"@[0]); }
    assert(seq!['^'] != "-"@) by { assert(seq!['^'][0] != "-"@[0]); }
    assert(seq!['^'] != "/"@) by { assert(seq!['^'][0] != "/"@[0]); }
    assert(seq!['^'] != "\\"@) by { assert(seq!['^'][0] != "\\"@[0]); }
    assert(spec_named_op(seq!['^']) == Some(NamedOp::Pow));
    assert(seq!['p', 'o', 'w'] =~= "pow"@);
    assert(seq!['p', 'o', 'w'] != "mul"@) by { assert(seq!['p', 'o', 'w'][0] != "mul"@[0]); }
    assert(seq!['p', 'o', 'w'] != "add"@) by { assert(seq!['p', 'o', 'w'][0] != "add"@[0]); }
    assert(seq!['p', 'o', 'w'] != "sub"@) by { assert(seq!['p', 'o', 'w'][0] != "sub"@[0]); }
    assert(seq!['p', 'o', 'w'] != "div"@) by { assert(seq!['p', 'o', 'w'][0] != "div"@[0]); }
    assert(spec_named_op(seq!['p', 'o', 'w']) == Some(NamedOp::Pow));
    assert(seq!['%'] =~= "%"@);
    assert(seq!['%'] != "*"@) by { assert(seq!['%'][0] != "*"@[0]); }
    assert(seq!['%'] != "+"@) by { assert(seq!['%'][0] != "+"@[0]); }
    assert(seq!['%'] != "-"@) by { assert(seq!['%'][0] != "-"@[0]); }
    assert(seq!['%'] != "/"@) by { assert(seq!['%'][0] != "/"@[0]); }
    assert(seq!['%'] != "\\"@) by { assert(seq!['%'][0] != "\\"@[0]); }
    assert(seq!['%'] != "^"@) by { assert(seq!['%'][0] != "^"@[0]); }
    assert(spec_named_op(seq!['%']) == Some(NamedOp::Mod));
    assert(seq!['m', 'o', 'd'] =~= "mod"@);
    assert(seq!['m', 'o', 'd'] != "mul"@) by { assert(seq!['m', 'o', 'd'][1] != "mul"@[1]); }
    assert(seq!['m', 'o', 'd'] != "add"@) by { assert(seq!['m', 'o', 'd'][0] != "add"@[0]); }
    assert(seq!['m', 'o', 'd'] != "sub"@) by { assert(seq!['m', 'o', 'd'][0] != "sub"@[0]); }
    assert(seq!['m', 'o', 'd'] != "div"@) by { assert(seq!['m', 'o', 'd'][0] != "div"@[0]); }
    assert(seq!['m', 'o', 'd'] != "pow"@) by { assert(seq!['m', 'o', 'd'][0] != "pow"@[0]); }
    assert(spec_named_op(seq!['m', 'o', 'd']) == Some(NamedOp::Mod));
    assert(seq!['a', 'd', 's', 'r'] =~= "adsr"@);
    assert(spec_named_op(seq!['a', 'd', 's', 'r']) == Some(NamedOp::Adsr));
    assert forall|i: int| 0 <= i < op_words(NamedOp::Mul).len() implies spec_named_op(#[trigger] op_words(NamedOp::Mul)[i]) == Some(NamedOp::Mul) by {}
    assert forall|i: int| 0 <= i < op_words(NamedOp::Add).len() implies spec_named_op(#[trigger] op_words(NamedOp::Add)[i]) == Some(NamedOp::Add) by {}
    assert forall|i: int| 0 <= i < op_words(NamedOp::Sub).len() implies spec_named_op(#[trigger] op_words(NamedOp::Sub)[i]) == Some(NamedOp::Sub) by {}
    assert forall|i: int| 0 <= i < op_words(NamedOp::Div).len() implies spec_named_op(#[trigger] op_words(NamedOp::Div)[i]) == Some(NamedOp::Div) by {}
    assert forall|i: int| 0 <= i < op_words(NamedOp::Recip).len() implies spec_named_op(#[trigger] op_words(NamedOp::Recip)[i]) == Some(NamedOp::Recip) by {}
    assert forall|i: int| 0 <= i < op_words(NamedOp::Pow).len() implies spec_named_op(#[trigger] op_words(NamedOp::Pow)[i]) == Some(NamedOp::Pow) by {}
    assert forall|i: int| 0 <= i < op_words(NamedOp::Mod).len() implies spec_named_op(#[trigger] op_words(NamedOp::Mod)[i]) == Some(NamedOp::Mod) by {}
    assert forall|i: int| 0 <= i < op_words(NamedOp::Adsr).len() implies spec_named_op(#[trigger] op_words(NamedOp::Adsr)[i]) == Some(NamedOp::Adsr) by {}
}

#[verifier::rlimit(50)]
proof fn lemma_listed_words_part1()
    ensures
        forall|i: int| 0 <= i < op_words(NamedOp::Amp2db).len() ==> spec_named_op(#[trigger] op_words(NamedOp::Amp2db)[i]) == Some(NamedOp::Amp2db),
        forall|i: int| 0 <= i < op_words(NamedOp::CosineOsc).len() ==> spec_named_op(#[trigger] op_words(NamedOp::CosineOsc)[i]) == Some(NamedOp::CosineOsc),
        forall|i: int| 0 <= i < op_words(NamedOp::CosineOscFast).len() ==> spec_named_op(#[trigger] op_words(NamedOp::CosineOscFast)[i]) == Some(NamedOp::CosineOscFast),
        forall|i: int| 0 <= i < op_words(NamedOp::Cheb2).len() ==> spec_named_op(#[trigger] op_words(NamedOp::Cheb2)[i]) == Some(NamedOp::Cheb2),
        forall|i: int| 0 <= i < op_words(NamedOp::Cheb3).len() ==> spec_named_op(#[trigger] op_words(NamedOp::Cheb3)[i]) == Some(NamedOp::Cheb3),
        forall|i: int| 0 <= i < op_words(NamedOp::Cheb4).len() ==> spec_named_op(#[trigger] op_words(NamedOp::Cheb4)[i]) == Some(NamedOp::Cheb4),
        forall|i: int| 0 <= i < op_words(NamedOp::Cheb5).len() ==> spec_named_op(#[trigger] op_words(NamedOp::Cheb5)[i]) == Some(NamedOp::Cheb5),
        forall|i: int| 0 <= i < op_words(NamedOp::Cheb6).len() ==> spec_named_op(#[trigger] op_words(NamedOp::Cheb6)[i]) == Some(NamedOp::Cheb6),
{
    reveal_strlit("*");
    reveal_strlit("mul");
    reveal_strlit("+");
    reveal_strlit("add");
    reveal_strlit("-");
    reveal_strlit("sub");
    reveal_strlit("/");
    reveal_strlit("div");
    reveal_strlit("\\");
    reveal_strlit("^");
    reveal_strlit("pow");
    reveal_strlit("%");
    reveal_strlit("mod");
    reveal_strlit("adsr");
    reveal_strlit("amp2db");
    reveal_strlit("a2db");
    reveal_strlit("c");
    reveal_strlit("c'");
    reveal_strlit("cheb2");
    reveal_strlit("cheb3");
    reveal_strlit("cheb4");
    reveal_strlit("cheb5");
    reveal_strlit("cheb6");
    assert(seq!['a', 'm', 'p', '2', 'd', 'b'] =~= "amp2db"@);
    assert(spec_named_op(seq!['a', 'm', 'p', '2', 'd', 'b']) == Some(NamedOp::Amp2db));
    assert(seq!['a', '2', 'd', 'b'] =~= "a2db"@);
    assert(seq!['a', '2', 'd', 'b'] != "adsr"@) by { assert(seq!['a', '2', 'd', 'b'][1] != "adsr"@[1]); }
    assert(spec_named_op(seq!['a', '2', 'd', 'b']) == Some(NamedOp::Amp2db));
    assert(seq!['c'] =~= "c"@);
    assert(seq!['c'] != "*"@) by { assert(seq!['c'][0] != "*"@[0]); }
    assert(seq!['c'] != "+"@) by { assert(seq!['c'][0] != "+"@[0]); }
    assert(seq!['c'] != "-"@) by { assert(seq!['c'][0] != "-"@[0]); }
    assert(seq!['c'] != "/"@) by { assert(seq!['c'][0] != "/"@[0]); }
    assert(seq!['c'] != "\\"@) by { assert(seq!['c'][0] != "\\"@[0]); }
    assert(seq!['c'] != "^"@) by { assert(seq!['c'][0] != "^"@[0]); }
    assert(seq!['c'] != "%"@) by { assert(seq!['c'][0] != "%"@[0]); }
    assert(spec_named_op(seq!['c']) == Some(NamedOp::CosineOsc));
    assert(seq!['c', '\''] =~= "c'"@);
    assert(spec_named_op(seq!['c', '\'']) == Some(NamedOp::CosineOscFast));
    assert(seq!['c', 'h', 'e', 'b', '2'] =~= "cheb2"@);
    assert(spec_named_op(seq!['c', 'h', 'e', 'b', '2']) == Some(NamedOp::Cheb2));
    assert(seq!['c', 'h', 'e', 'b', '3'] =~= "cheb3"@);
    assert(seq!['c', 'h', 'e', 'b', '3'] != "cheb2"@) by { assert(seq!['c', 'h', 'e', 'b', '3'][4] != "cheb2"@[4]); }
    assert(spec_named_op(seq!['c', 'h', 'e', 'b', '3']) == Some(NamedOp::Cheb3));
    assert(seq!['c', 'h', 'e', 'b', '4'] =~= "cheb4"@);
    assert(seq!['c', 'h', 'e', 'b', '4'] != "cheb2"@) by { assert(seq!['c', 'h', 'e', 'b', '4'][4] != "cheb2"@[4]); }
    assert(seq!['c', 'h', 'e', 'b', '4'] != "cheb3"@) by { assert(seq!['c', 'h', 'e', 'b', '4'][4] != "cheb3"@[4]); }
    assert(spec_named_op(seq!['c', 'h', 'e', 'b', '4']) == Some(NamedOp::Cheb4));
    assert(seq!['c', 'h', 'e', 'b', '5'] =~= "cheb5"@);
    assert(seq!['c', 'h', 'e', 'b', '5'] != "cheb2"@) by { assert(seq!['c', 'h', 'e', 'b', '5'][4] != "cheb2"@[4]); }
    assert(seq!['c', 'h', 'e', 'b', '5'] != "cheb3"@) by { assert(seq!['c', 'h', 'e', 'b', '5'][4] != "cheb3"@[4]); }
    assert(seq!['c', 'h', 'e', 'b', '5'] != "cheb4"@) by { assert(seq!['c', 'h', 'e', 'b', '5'][4] != "cheb4"@[4]); }
    assert(spec_named_op(seq!['c', 'h', 'e', 'b', '5']) == Some(NamedOp::Cheb5));
    assert(seq!['c', 'h', 'e', 'b', '6'] =~= "cheb6"@);
    assert(seq!['c', 'h', 'e', 'b', '6'] != "cheb2"@) by { assert(seq!['c', 'h', 'e', 'b', '6'][4] != "cheb2"@[4]); }
    assert(seq!['c', 'h', 'e', 'b', '6'] != "cheb3"@) by { assert(seq!['c', 'h', 'e', 'b', '6'][4] != "cheb3"@[4]); }
    assert(seq!['c', 'h', 'e', 'b', '6'] != "cheb4"@) by { assert(seq!['c', 'h', 'e', 'b', '6'][4] != "cheb4"@[4]); }
    assert(seq!['c', 'h', 'e', 'b', '6'] != "cheb5"@) by { assert(seq!['c', 'h', 'e', 'b', '6'][4] != "cheb5"@[4]); }
    assert(spec_named_op(seq!['c', 'h', 'e', 'b', '6']) == Some(NamedOp::Cheb6));
    assert forall|i: int| 0 <= i < op_words(NamedOp::Amp2db).len() implies spec_named_op(#[trigger] op_words(NamedOp::Amp2db)[i]) == Some(NamedOp::Amp2db) by {}
    assert forall|i: int| 0 <= i < op_words(NamedOp::CosineOsc).len() implies spec_named_op(#[trigger] op_words(NamedOp::CosineOsc)[i]) == Some(NamedOp::CosineOsc) by {}
    assert forall|i: int| 0 <= i < op_words(NamedOp::CosineOscFast).len() implies spec_named_op(#[trigger] op_words(NamedOp::CosineOscFast)[i]) == Some(NamedOp::CosineOscFast) by {}
    assert forall|i: int| 0 <= i < op_words(NamedOp::Cheb2).len() implies spec_named_op(#[trigger] op_words(NamedOp::Cheb2)[i]) == Some(NamedOp::Cheb2) by {}
    assert forall|i: int| 0 <= i < op_words(NamedOp::Cheb3).len() implies spec_named_op(#[trigger] op_words(NamedOp::Cheb3)[i]) == Some(NamedOp::Cheb3) by {}
    assert forall|i: int| 0 <= i < op_words(NamedOp::Cheb4).len() implies spec_named_op(#[trigger] op_words(NamedOp::Cheb4)[i]) == Some(NamedOp::Cheb4) by {}
    assert forall|i: int| 0 <= i < op_words(NamedOp::Cheb5).len() implies spec_named_op(#[trigger] op_words(NamedOp::Cheb5)[i]) == Some(NamedOp::Cheb5) by {}
    assert forall|i: int| 0 <= i < op_words(NamedOp::Cheb6).len() implies spec_named_op(#[trigger] op_words(NamedOp::Cheb6)[i]) == Some(NamedOp::Cheb6) by {}
}

#[verifier::rlimit(50)]
proof fn lemma_listed_words_part2()
    ensures
        forall|i: int| 0 <= i < op_words(NamedOp::Circle).len() ==> spec_named_op(#[trigger] op_words(NamedOp::Circle)[i]) == Some(NamedOp::Circle),
        forall|i: int| 0 <= i < op_words(NamedOp::Clamp).len() ==> spec_named_op(#[trigger] op_words(NamedOp::Clamp)[i]) == Some(NamedOp::Clamp),
        forall|i: int| 0 <= i < op_words(NamedOp::Clip).len() ==> spec_named_op(#[trigger] op_words(NamedOp::Clip)[i]) == Some(NamedOp::Clip),
        forall|i: int| 0 <= i < op_words(NamedOp::Cos).len() ==> spec_named_op(#[trigger] op_words(NamedOp::Cos)[i]) == Some(NamedOp::Cos),
        forall|i: int| 0 <= i < op_words(NamedOp::CosFast).len() ==> spec_named_op(#[trigger] op_words(NamedOp::CosFast)[i]) == Some(NamedOp::CosFast),
        forall|i: int| 0 <= i < op_words(NamedOp::Cosh).len() ==> spec_named_op(#[trigger] op_words(NamedOp::Cosh)[i]) == Some(NamedOp::Cosh),
        forall|i: int| 0 <= i < op_words(NamedOp::Cosine).len() ==> spec_named_op(#[trigger] op_words(NamedOp::Cosine)[i]) == Some(NamedOp::Cosine),
        forall|i: int| 0 <= i < op_words(NamedOp::CosineFast).len() ==> spec_named_op(#[trigger] op_words(NamedOp::CosineFast)[i]) == Some(NamedOp::CosineFast),
{
    reveal_strlit("*");
    reveal_strlit("mul");
    reveal_strlit("+");
    reveal_strlit("add");
    reveal_strlit("-");
    reveal_strlit("sub");
    reveal_strlit("/");
    reveal_strlit("div");
    reveal_strlit("\\");
    reveal_strlit("^");
    reveal_strlit("pow");
    reveal_strlit("%");
    reveal_strlit("mod");
    reveal_strlit("adsr");
    reveal_strlit("amp2db");
    reveal_strlit("a2db");
    reveal_strlit("c");
    reveal_strlit("c'");
    reveal_strlit("cheb2");
    reveal_strlit("cheb3");
    reveal_strlit("cheb4");
    reveal_strlit("cheb5");
    reveal_strlit("cheb6");
    reveal_strlit("circle");
    reveal_strlit("clamp");
    reveal_strlit("clip");
    reveal_strlit("cos");
    reveal_strlit("cos'");
    reveal_strlit("cosh");
    reveal_strlit("cosine");
    reveal_strlit("cosine'");
    assert(seq!['c', 'i', 'r', 'c', 'l', 'e'] =~= "circle"@);
    assert(seq!['c', 'i', 'r', 'c', 'l', 'e'] != "amp2db"@) by { assert(seq!['c', 'i', 'r', 'c', 'l', 'e'][0] != "amp2db"@[0]); }
    assert(spec_named_op(seq!['c', 'i', 'r', 'c', 'l', 'e']) == Some(NamedOp::Circle));
    assert(seq!['c', 'l', 'a', 'm', 'p'] =~= "clamp"@);
    assert(seq!['c', 'l', 'a', 'm', 'p'] != "cheb2"@) by { assert(seq!['c', 'l', 'a', 'm', 'p'][1] != "cheb2"@[1]); }
    assert(seq!['c', 'l', 'a', 'm', 'p'] != "cheb3"@) by { assert(seq!['c', 'l', 'a', 'm', 'p'][1] != "cheb3"@[1]); }
    assert(seq!['c', 'l', 'a', 'm', 'p'] != "cheb4"@) by { assert(seq!['c', 'l', 'a', 'm', 'p'][1] != "cheb4"@[1]); }
    assert(seq!['c', 'l', 'a', 'm', 'p'] != "cheb5"@) by { assert(seq!['c', 'l', 'a', 'm', 'p'][1] != "cheb5"@[1]); }
    assert(seq!['c', 'l', 'a', 'm', 'p'] != "cheb6"@) by { assert(seq!['c', 'l', 'a', 'm', 'p'][1] != "cheb6"@[1]); }
    assert(spec_named_op(seq!['c', 'l', 'a', 'm', 'p']) == Some(NamedOp::Clamp));
    assert(seq!['c', 'l', 'i', 'p'] =~= "clip"@);
    assert(seq!['c', 'l', 'i', 'p'] != "adsr"@) by { assert(seq!['c', 'l', 'i', 'p'][0] != "adsr"@[0]); }
    assert(seq!['c', 'l', 'i', 'p'] != "a2db"@) by { assert(seq!['c', 'l', 'i', 'p'][0] != "a2db"@[0]); }
    assert(spec_named_op(seq!['c', 'l', 'i', 'p']) == Some(NamedOp::Clip));
    assert(seq!['c', 'o', 's'] =~= "cos"@);
    assert(seq!['c', 'o', 's'] != "mul"@) by { assert(seq!['c', 'o', 's'][0] != "mul"@[0]); }
    assert(seq!['c', 'o', 's'] != "add"@) by { assert(seq!['c', 'o', 's'][0] != "add"@[0]); }
    assert(seq!['c', 'o', 's'] != "sub"@) by { assert(seq!['c', 'o', 's'][0] != "sub"@[0]); }
    assert(seq!['c', 'o', 's'] != "div"@) by { assert(seq!['c', 'o', 's'][0] != "div"@[0]); }
    assert(seq!['c', 'o', 's'] != "pow"@) by { assert(seq!['c', 'o', 's'][0] != "pow"@[0]); }
    assert(seq!['c', 'o', 's'] != "mod"@) by { assert(seq!['c', 'o', 's'][0] != "mod"@[0]); }
    assert(spec_named_op(seq!['c', 'o', 's']) == Some(NamedOp::Cos));
    assert(seq!['c', 'o', 's', '\''] =~= "cos'"@);
    assert(seq!['c', 'o', 's', '\''] != "adsr"@) by { assert(seq!['c', 'o', 's', '\''][0] != "adsr"@[0]); }
    assert(seq!['c', 'o', 's', '\''] != "a2db"@) by { assert(seq!['c', 'o', 's', '\''][0] != "a2db"@[0]); }
    assert(seq!['c', 'o', 's', '\''] != "clip"@) by { assert(seq!['c', 'o', 's', '\''][1] != "clip"@[1]); }
    assert(spec_named_op(seq!['c', 'o', 's', '\'']) == Some(NamedOp::CosFast));
    assert(seq!['c', 'o', 's', 'h'] =~= "cosh"@);
    assert(seq!['c', 'o', 's', 'h'] != "adsr"@) by { assert(seq!['c', 'o', 's', 'h'][0] != "adsr"@[0]); }
    assert(seq!['c', 'o', 's', 'h'] != "a2db"@) by { assert(seq!['c', 'o', 's', 'h'][0] != "a2db"@[0]); }
    assert(seq!['c', 'o', 's', 'h'] != "clip"@) by { assert(seq!['c', 'o', 's', 'h'][1] != "clip"@[1]); }
    assert(seq!['c', 'o', 's', 'h'] != "cos'"@) by { assert(seq!['c', 'o', 's', 'h'][3] != "cos'"@[3]); }
    assert(spec_named_op(seq!['c', 'o', 's', 'h']) == Some(NamedOp::Cosh));
    assert(seq!['c', 'o', 's', 'i', 'n', 'e'] =~= "cosine"@);
    assert(seq!['c', 'o', 's', 'i', 'n', 'e'] != "amp2db"@) by { assert(seq!['c', 'o', 's', 'i', 'n', 'e'][0] != "amp2db"@[0]); }
    assert(seq!['c', 'o', 's', 'i', 'n', 'e'] != "circle"@) by { assert(seq!['c', 'o', 's', 'i', 'n', 'e'][1] != "circle"@[1]); }
    assert(spec_named_op(seq!['c', 'o', 's', 'i', 'n', 'e']) == Some(NamedOp::Cosine));
    assert(seq!['c', 'o', 's', 'i', 'n', 'e', '\''] =~= "cosine'"@);
    assert(spec_named_op(seq!['c', 'o', 's', 'i', 'n', 'e', '\'']) == Some(NamedOp::CosineFast));
    assert forall|i: int| 0 <= i < op_words(NamedOp::Circle).len() implies spec_named_op(#[trigger] op_words(NamedOp::Circle)[i]) == Some(NamedOp::Circle) by {}
    assert forall|i: int| 0 <= i < op_words(NamedOp::Clamp).len() implies spec_named_op(#[trigger] op_words(NamedOp::Clamp)[i]) == Some(NamedOp::Clamp) by {}
    assert forall|i: int| 0 <= i < op_words(NamedOp::Clip).len() implies spec_named_op(#[trigger] op_words(NamedOp::Clip)[i]) == Some(NamedOp::Clip) by {}
    assert forall|i: int| 0 <= i < op_words(NamedOp::Cos).len() implies spec_named_op(#[trigger] op_words(NamedOp::Cos)[i]) == Some(NamedOp::Cos) by {}
    assert forall|i: int| 0 <= i < op_words(NamedOp::CosFast).len() implies spec_named_op(#[trigger] op_words(NamedOp::CosFast)[i]) == Some(NamedOp::CosFast) by {}
    assert forall|i: int| 0 <= i < op_words(NamedOp::Cosh).len() implies spec_named_op(#[trigger] op_words(NamedOp::Cosh)[i]) == Some(NamedOp::Cosh) by {}
    assert forall|i: int| 0 <= i < op_words(NamedOp::Cosine).len() implies spec_named_op(#[trigger] op_words(NamedOp::Cosine)[i]) == Some(NamedOp::Cosine) by {}
    assert forall|i: int| 0 <= i < op_words(NamedOp::CosineFast).len() implies spec_named_op(#[trigger] op_words(NamedOp::CosineFast)[i]) == Some(NamedOp::CosineFast) by {}
}

#[verifier::rlimit(50)]
proof fn lemma_listed_words_part3()
    ensures
        forall|i: int| 0 <= i < op_words(NamedOp::Cycle).len() ==> spec_named_op(#[trigger] op_words(NamedOp::Cycle)[i]) == Some(NamedOp::Cycle),
        forall|i: int| 0 <= i < op_words(NamedOp::Db2amp).len() ==> spec_named_op(#[trigger] op_words(NamedOp::Db2amp)[i]) == Some(NamedOp::Db2amp),
        forall|i: int| 0 <= i < op_words(NamedOp::Dmetro).len() ==> spec_named_op(#[trigger] op_words(NamedOp::Dmetro)[i]) == Some(NamedOp::Dmetro),
        forall|i: int| 0 <= i < op_words(NamedOp::DmetroHold).len() ==> spec_named_op(#[trigger] op_words(NamedOp::DmetroHold)[i]) == Some(NamedOp::DmetroHold),
        forall|i: int| 0 <= i < op_words(NamedOp::Dup).len() ==> spec_named_op(#[trigger] op_words(NamedOp::Dup)[i]) == Some(NamedOp::Dup),
        forall|i: int| 0 <= i < op_words(NamedOp::Exp).len() ==> spec_named_op(#[trigger] op_words(NamedOp::Exp)[i]) == Some(NamedOp::Exp),
        forall|i: int| 0 <= i < op_words(NamedOp::Biexp).len() ==> spec_named_op(#[trigger] op_words(NamedOp::Biexp)[i]) == Some(NamedOp::Biexp),
        forall|i: int| 0 <= i < op_words(NamedOp::Expexp).len() ==> spec_named_op(#[trigger] op_words(NamedOp::Expexp)[i]) == Some(NamedOp::Expexp),
{
    reveal_strlit("*");
    reveal_strlit("mul");
    reveal_strlit("+");
    reveal_strlit("add");
    reveal_strlit("-");
    reveal_strlit("sub");
    reveal_strlit("/");
    reveal_strlit("div");
    reveal_strlit("\\");
    reveal_strlit("^");
    reveal_strlit("pow");
    reveal_strlit("%");
    reveal_strlit("mod");
    reveal_strlit("adsr");
    reveal_strlit("amp2db");
    reveal_strlit("a2db");
    reveal_strlit("c");
    reveal_strlit("c'");
    reveal_strlit("cheb2");
    reveal_strlit("cheb3");
    reveal_strlit("cheb4");
    reveal_strlit("cheb5");
    reveal_strlit("cheb6");
    reveal_strlit("circle");
    reveal_strlit("clamp");
    reveal_strlit("clip");
    reveal_strlit("cos");
    reveal_strlit("cos'");
    reveal_strlit("cosh");
    reveal_strlit("cosine");
    reveal_strlit("cosine'");
    reveal_strlit("cycle");
    reveal_strlit("cy");
    reveal_strlit("db2amp");
    reveal_strlit("db2a");
    reveal_strlit("dm");
    reveal_strlit("dmetro");
    reveal_strlit("dmh");
    reveal_strlit("dmetro_hold");
    reveal_strlit("dup");
    reveal_strlit("exp");
    reveal_strlit("biexp");
    reveal_strlit("expexp");
    assert(seq!['c', 'y', 'c', 'l', 'e'] =~= "cycle"@);
    assert(seq!['c', 'y', 'c', 'l', 'e'] != "cheb2"@) by { assert(seq!['c', 'y', 'c', 'l', 'e'][1] != "cheb2"@[1]); }
    assert(seq!['c', 'y', 'c', 'l', 'e'] != "cheb3"@) by { assert(seq!['c', 'y', 'c', 'l', 'e'][1] != "cheb3"@[1]); }
    assert(seq!['c', 'y', 'c', 'l', 'e'] != "cheb4"@) by { assert(seq!['c', 'y', 'c', 'l', 'e'][1] != "cheb4"@[1]); }
    assert(seq!['c', 'y', 'c', 'l', 'e'] != "cheb5"@) by { assert(seq!['c', 'y', 'c', 'l', 'e'][1] != "cheb5"@[1]); }
    assert(seq!['c', 'y', 'c', 'l', 'e'] != "cheb6"@) by { assert(seq!['c', 'y', 'c', 'l', 'e'][1] != "cheb6"@[1]); }
    assert(seq!['c', 'y', 'c', 'l', 'e'] != "clamp"@) by { assert(seq!['c', 'y', 'c', 'l', 'e'][1] != "clamp"@[1]); }
    assert(spec_named_op(seq!['c', 'y', 'c', 'l', 'e']) == Some(NamedOp::Cycle));
    assert(seq!['c', 'y'] =~= "cy"@);
    assert(seq!['c', 'y'] != "c'"@) by { assert(seq!['c', 'y'][1] != "c'"@[1]); }
    assert(spec_named_op(seq!['c', 'y']) == Some(NamedOp::Cycle));
    assert(seq!['d', 'b', '2', 'a', 'm', 'p'] =~= "db2amp"@);
    assert(seq!['d', 'b', '2', 'a', 'm', 'p'] != "amp2db"@) by { assert(seq!['d', 'b', '2', 'a', 'm', 'p'][0] != "amp2db"@[0]); }
    assert(seq!['d', 'b', '2', 'a', 'm', 'p'] != "circle"@) by { assert(seq!['d', 'b', '2', 'a', 'm', 'p'][0] != "circle"@[0]); }
    assert(seq!['d', 'b', '2', 'a', 'm', 'p'] != "cosine"@) by { assert(seq!['d', 'b', '2', 'a', 'm', 'p'][0] != "cosine"@[0]); }
    assert(spec_named_op(seq!['d', 'b', '2', 'a', 'm', 'p']) == Some(NamedOp::Db2amp));
    assert(seq!['d', 'b', '2', 'a'] =~= "db2a"@);
    assert(seq!['d', 'b', '2', 'a'] != "adsr"@) by { assert(seq!['d', 'b', '2', 'a'][0] != "adsr"@[0]); }
    assert(seq!['d', 'b', '2', 'a'] != "a2db"@) by { assert(seq!['d', 'b', '2', 'a'][0] != "a2db"@[0]); }
    assert(seq!['d', 'b', '2', 'a'] != "clip"@) by { assert(seq!['d', 'b', '2', 'a'][0] != "clip"@[0]); }
    assert(seq!['d', 'b', '2', 'a'] != "cos'"@) by { assert(seq!['d', 'b', '2', 'a'][0] != "cos'"@[0]); }
    assert(seq!['d', 'b', '2', 'a'] != "cosh"@) by { assert(seq!['d', 'b', '2', 'a'][0] != "cosh"@[0]); }
    assert(spec_named_op(seq!['d', 'b', '2', 'a']) == Some(NamedOp::Db2amp));
    assert(seq!['d', 'm'] =~= "dm"@);
    assert(seq!['d', 'm'] != "c'"@) by { assert(seq!['d', 'm'][0] != "c'"@[0]); }
    assert(seq!['d', 'm'] != "cy"@) by { assert(seq!['d', 'm'][0] != "cy"@[0]); }
    assert(spec_named_op(seq!['d', 'm']) == Some(NamedOp::Dmetro));
    assert(seq!['d', 'm', 'e', 't', 'r', 'o'] =~= "dmetro"@);
    assert(seq!['d', 'm', 'e', 't', 'r', 'o'] != "amp2db"@) by { assert(seq!['d', 'm', 'e', 't', 'r', 'o'][0] != "amp2db"@[0]); }
    assert(seq!['d', 'm', 'e', 't', 'r', 'o'] != "circle"@) by { assert(seq!['d', 'm', 'e', 't', 'r', 'o'][0] != "circle"@[0]); }
    assert(seq!['d', 'm', 'e', 't', 'r', 'o'] != "cosine"@) by { assert(seq!['d', 'm', 'e', 't', 'r', 'o'][0] != "cosine"@[0]); }
    assert(seq!['d', 'm', 'e', 't', 'r', 'o'] != "db2amp"@) by { assert(seq!['d', 'm', 'e', 't', 'r', 'o'][1] != "db2amp"@[1]); }
    assert(spec_named_op(seq!['d', 'm', 'e', 't', 'r', 'o']) == Some(NamedOp::Dmetro));
    assert(seq!['d', 'm', 'h'] =~= "dmh"@);
    assert(seq!['d', 'm', 'h'] != "mul"@) by { assert(seq!['d', 'm', 'h'][0] != "mul"@[0]); }
    assert(seq!['d', 'm', 'h'] != "add"@) by { assert(seq!['d', 'm', 'h'][0] != "add"@[0]); }
    assert(seq!['d', 'm', 'h'] != "sub"@) by { assert(seq!['d', 'm', 'h'][0] != "sub"@[0]); }
    assert(seq!['d', 'm', 'h'] != "div"@) by { assert(seq!['d', 'm', 'h'][1] != "div"@[1]); }
    assert(seq!['d', 'm', 'h'] != "pow"@) by { assert(seq!['d', 'm', 'h'][0] != "pow"@[0]); }
    assert(seq!['d', 'm', 'h'] != "mod"@) by { assert(seq!['d', 'm', 'h'][0] != "mod"@[0]); }
    assert(seq!['d', 'm', 'h'] != "cos"@) by { assert(seq!['d', 'm', 'h'][0] != "cos"@[0]); }
    assert(spec_named_op(seq!['d', 'm', 'h']) == Some(NamedOp::DmetroHold));
    assert(seq!['d', 'm', 'e', 't', 'r', 'o', '_', 'h', 'o', 'l', 'd'] =~= "dmetro_hold"@);
    assert(spec_named_op(seq!['d', 'm', 'e', 't', 'r', 'o', '_', 'h', 'o', 'l', 'd']) == Some(NamedOp::DmetroHold));
    assert(seq!['d', 'u', 'p'] =~= "dup"@);
    assert(seq!['d', 'u', 'p'] != "mul"@) by { assert(seq!['d', 'u', 'p'][0] != "mul"@[0]); }
    assert(seq!['d', 'u', 'p'] != "add"@) by { assert(seq!['d', 'u', 'p'][0] != "add"@[0]); }
    assert(seq!['d', 'u', 'p'] != "sub"@) by { assert(seq!['d', 'u', 'p'][0] != "sub"@[0]); }
    assert(seq!['d', 'u', 'p'] != "div"@) by { assert(seq!['d', 'u', 'p'][1] != "div"@[1]); }
    assert(seq!['d', 'u', 'p'] != "pow"@) by { assert(seq!['d', 'u', 'p'][0] != "pow"@[0]); }
    assert(seq!['d', 'u', 'p'] != "mod"@) by { assert(seq!['d', 'u', 'p'][0] != "mod"@[0]); }
    assert(seq!['d', 'u', 'p'] != "cos"@) by { assert(seq!['d', 'u', 'p'][0] != "cos"@[0]); }
    assert(seq!['d', 'u', 'p'] != "dmh"@) by { assert(seq!['d', 'u', 'p'][1] != "dmh"@[1]); }
    assert(spec_named_op(seq!['d', 'u', 'p']) == Some(NamedOp::Dup));
    assert(seq!['e', 'x', 'p'] =~= "exp"@);
    assert(seq!['e', 'x', 'p'] != "mul"@) by { assert(seq!['e', 'x', 'p'][0] != "mul"@[0]); }
    assert(seq!['e', 'x', 'p'] != "add"@) by { assert(seq!['e', 'x', 'p'][0] != "add"@[0]); }
    assert(seq!['e', 'x', 'p'] != "sub"@) by { assert(seq!['e', 'x', 'p'][0] != "sub"@[0]); }
    assert(seq!['e', 'x', 'p'] != "div"@) by { assert(seq!['e', 'x', 'p'][0] != "div"@[0]); }
    assert(seq!['e', 'x', 'p'] != "pow"@) by { assert(seq!['e', 'x', 'p'][0] != "pow"@[0]); }
    assert(seq!['e', 'x', 'p'] != "mod"@) by { assert(seq!['e', 'x', 'p'][0] != "mod"@[0]); }
    assert(seq!['e', 'x', 'p'] != "cos"@) by { assert(seq!['e', 'x', 'p'][0] != "cos"@[0]); }
    assert(seq!['e', 'x', 'p'] != "dmh"@) by { assert(seq!['e', 'x', 'p'][0] != "dmh"@[0]); }
    assert(seq!['e', 'x', 'p'] != "dup"@) by { assert(seq!['e', 'x', 'p'][0] != "dup"@[0]); }
    assert(spec_named_op(seq!['e', 'x', 'p']) == Some(NamedOp::Exp));
    assert(seq!['b', 'i', 'e', 'x', 'p'] =~= "biexp"@);
    assert(seq!['b', 'i', 'e', 'x', 'p'] != "cheb2"@) by { assert(seq!['b', 'i', 'e', 'x', 'p'][0] != "cheb2"@[0]); }
    assert(seq!['b', 'i', 'e', 'x', 'p'] != "cheb3"@) by { assert(seq!['b', 'i', 'e', 'x', 'p'][0] != "cheb3"@[0]); }
    assert(seq!['b', 'i', 'e', 'x', 'p'] != "cheb4"@) by { assert(seq!['b', 'i', 'e', 'x', 'p'][0] != "cheb4"@[0]); }
    assert(seq!['b', 'i', 'e', 'x', 'p'] != "cheb5"@) by { assert(seq!['b', 'i', 'e', 'x', 'p'][0] != "cheb5"@[0]); }
    assert(seq!['b', 'i', 'e', 'x', 'p'] != "cheb6"@) by { assert(seq!['b', 'i', 'e', 'x', 'p'][0] != "cheb6"@[0]); }
    assert(seq!['b', 'i', 'e', 'x', 'p'] != "clamp"@) by { assert(seq!['b', 'i', 'e', 'x', 'p'][0] != "clamp"@[0]); }
    assert(seq!['b', 'i', 'e', 'x', 'p'] != "cycle"@) by { assert(seq!['b', 'i', 'e', 'x', 'p'][0] != "cycle"@[0]); }
    assert(spec_named_op(seq!['b', 'i', 'e', 'x', 'p']) == Some(NamedOp::Biexp));
    assert(seq!['e', 'x', 'p', 'e', 'x', 'p'] =~= "expexp"@);
    assert(seq!['e', 'x', 'p', 'e', 'x', 'p'] != "amp2db"@) by { assert(seq!['e', 'x', 'p', 'e', 'x', 'p'][0] != "amp2db"@[0]); }
    assert(seq!['e', 'x', 'p', 'e', 'x', 'p'] != "circle"@) by { assert(seq!['e', 'x', 'p', 'e', 'x', 'p'][0] != "circle"@[0]); }
    assert(seq!['e', 'x', 'p', 'e', 'x', 'p'] != "cosine"@) by { assert(seq!['e', 'x', 'p', 'e', 'x', 'p'][0] != "cosine"@[0]); }
    assert(seq!['e', 'x', 'p', 'e', 'x', 'p'] != "db2amp"@) by { assert(seq!['e', 'x', 'p', 'e', 'x', 'p'][0] != "db2amp"@[0]); }
    assert(seq!['e', 'x', 'p', 'e', 'x', 'p'] != "dmetro"@) by { assert(seq!['e', 'x', 'p', 'e', 'x', 'p'][0] != "dmetro"@[0]); }
    assert(spec_named_op(seq!['e', 'x', 'p', 'e', 'x', 'p']) == Some(NamedOp::Expexp));
    assert forall|i: int| 0 <= i < op_words(NamedOp::Cycle).len() implies spec_named_op(#[trigger] op_words(NamedOp::Cycle)[i]) == Some(NamedOp::Cycle) by {}
    assert forall|i: int| 0 <= i < op_words(NamedOp::Db2amp).len() implies spec_named_op(#[trigger] op_words(NamedOp::Db2amp)[i]) == Some(NamedOp::Db2amp) by {}
    assert forall|i: int| 0 <= i < op_words(NamedOp::Dmetro).len() implies spec_named_op(#[trigger] op_words(NamedOp::Dmetro)[i]) == Some(NamedOp::Dmetro) by {}
    assert forall|i: int| 0 <= i < op_words(NamedOp::DmetroHold).len() implies spec_named_op(#[trigger] op_words(NamedOp::DmetroHold)[i]) == Some(NamedOp::DmetroHold) by {}
    assert forall|i: int| 0 <= i < op_words(NamedOp::Dup).len() implies spec_named_op(#[trigger] op_words(NamedOp::Dup)[i]) == Some(NamedOp::Dup) by {}
    assert forall|i: int| 0 <= i < op_words(NamedOp::Exp).len() implies spec_named_op(#[trigger] op_words(NamedOp::Exp)[i]) == Some(NamedOp::Exp) by {}
    assert forall|i: int| 0 <= i < op_words(NamedOp::Biexp).len() implies spec_named_op(#[trigger] op_words(NamedOp::Biexp)[i]) == Some(NamedOp::Biexp) by {}
    assert forall|i: int| 0 <= i < op_words(NamedOp::Expexp).len() implies spec_named_op(#[trigger] op_words(NamedOp::Expexp)[i]) == Some(NamedOp::Expexp) by {}
}

#[verifier::rlimit(50)]
proof fn lemma_listed_words_part4()
    ensures
        forall|i: int| 0 <= i < op_words(NamedOp::Explin).len() ==> spec_named_op(#[trigger] op_words(NamedOp::Explin)[i]) == Some(NamedOp::Explin),
        forall|i: int| 0 <= i < op_words(NamedOp::Freq2midi).len() ==> spec_named_op(#[trigger] op_words(NamedOp::Freq2midi)[i]) == Some(NamedOp::Freq2midi),
        forall|i: int| 0 <= i < op_words(NamedOp::Bqbpf).len() ==> spec_named_op(#[trigger] op_words(NamedOp::Bqbpf)[i]) == Some(NamedOp::Bqbpf),
        forall|i: int| 0 <= i < op_words(NamedOp::Bqhpf).len() ==> spec_named_op(#[trigger] op_words(NamedOp::Bqhpf)[i]) == Some(NamedOp::Bqhpf),
        forall|i: int| 0 <= i < op_words(NamedOp::Hpf).len() ==> spec_named_op(#[trigger] op_words(NamedOp::Hpf)[i]) == Some(NamedOp::Hpf),
        forall|i: int| 0 <= i < op_words(NamedOp::Impulse).len() ==> spec_named_op(#[trigger] op_words(NamedOp::Impulse)[i]) == Some(NamedOp::Impulse),
        forall|i: int| 0 <= i < op_words(NamedOp::Input).len() ==> spec_named_op(#[trigger] op_words(NamedOp::Input)[i]) == Some(NamedOp::Input),
        forall|i: int| 0 <= i < op_words(NamedOp::Bqlpf).len() ==> spec_named_op(#[trigger] op_words(NamedOp::Bqlpf)[i]) == Some(NamedOp::Bqlpf),
{
    reveal_strlit("*");
    reveal_strlit("mul");
    reveal_strlit("+");
    reveal_strlit("add");
    reveal_strlit("-");
    reveal_strlit("sub");
    reveal_strlit("/");
    reveal_strlit("div");
    reveal_strlit("\\");
    reveal_strlit("^");
    reveal_strlit("pow");
    reveal_strlit("%");
    reveal_strlit("mod");
    reveal_strlit("adsr");
    reveal_strlit("amp2db");
    reveal_strlit("a2db");
    reveal_strlit("c");
    reveal_strlit("c'");
    reveal_strlit("cheb2");
    reveal_strlit("cheb3");
    reveal_strlit("cheb4");
    reveal_strlit("cheb5");
    reveal_strlit("cheb6");
    reveal_strlit("circle");
    reveal_strlit("clamp");
    reveal_strlit("clip");
    reveal_strlit("cos");
    reveal_strlit("cos'");
    reveal_strlit("cosh");
    reveal_strlit("cosine");
    reveal_strlit("cosine'");
    reveal_strlit("cycle");
    reveal_strlit("cy");
    reveal_strlit("db2amp");
    reveal_strlit("db2a");
    reveal_strlit("dm");
    reveal_strlit("dmetro");
    reveal_strlit("dmh");
    reveal_strlit("dmetro_hold");
    reveal_strlit("dup");
    reveal_strlit("exp");
    reveal_strlit("biexp");
    reveal_strlit("expexp");
    reveal_strlit("explin");
    reveal_strlit("f2m");
    reveal_strlit("freq2midi");
    reveal_strlit("bp");
    reveal_strlit("bqbpf");
    reveal_strlit("h");
    reveal_strlit("bqhpf");
    reveal_strlit("hpf");
    reveal_strlit("impulse");
    reveal_strlit("in");
    reveal_strlit("input");
    reveal_strlit("l");
    reveal_strlit("bqlpf");
    assert(seq!['e', 'x', 'p', 'l', 'i', 'n'] =~= "explin"@);
    assert(seq!['e', 'x', 'p', 'l', 'i', 'n'] != "amp2db"@) by { assert(seq!['e', 'x', 'p', 'l', 'i', 'n'][0] != "amp2db"@[0]); }
    assert(seq!['e', 'x', 'p', 'l', 'i', 'n'] != "circle"@) by { assert(seq!['e', 'x', 'p', 'l', 'i', 'n'][0] != "circle"@[0]); }
    assert(seq!['e', 'x', 'p', 'l', 'i', 'n'] != "cosine"@) by { assert(seq!['e', 'x', 'p', 'l', 'i', 'n'][0] != "cosine"@[0]); }
    assert(seq!['e', 'x', 'p', 'l', 'i', 'n'] != "db2amp"@) by { assert(seq!['e', 'x', 'p', 'l', 'i', 'n'][0] != "db2amp"@[0]); }
    assert(seq!['e', 'x', 'p', 'l', 'i', 'n'] != "dmetro"@) by { assert(seq!['e', 'x', 'p', 'l', 'i', 'n'][0] != "dmetro"@[0]); }
    assert(seq!['e', 'x', 'p', 'l', 'i', 'n'] != "expexp"@) by { assert(seq!['e', 'x', 'p', 'l', 'i', 'n'][3] != "expexp"@[3]); }
    assert(spec_named_op(seq!['e', 'x', 'p', 'l', 'i', 'n']) == Some(NamedOp::Explin));
    assert(seq!['f', '2', 'm'] =~= "f2m"@);
    assert(seq!['f', '2', 'm'] != "mul"@) by { assert(seq!['f', '2', 'm'][0] != "mul"@[0]); }
    assert(seq!['f', '2', 'm'] != "add"@) by { assert(seq!['f', '2', 'm'][0] != "add"@[0]); }
    assert(seq!['f', '2', 'm'] != "sub"@) by { assert(seq!['f', '2', 'm'][0] != "sub"@[0]); }
    assert(seq!['f', '2', 'm'] != "div"@) by { assert(seq!['f', '2', 'm'][0] != "div"@[0]); }
    assert(seq!['f', '2', 'm'] != "pow"@) by { assert(seq!['f', '2', 'm'][0] != "pow"@[0]); }
    assert(seq!['f', '2', 'm'] != "mod"@) by { assert(seq!['f', '2', 'm'][0] != "mod"@[0]); }
    assert(seq!['f', '2', 'm'] != "cos"@) by { assert(seq!['f', '2', 'm'][0] != "cos"@[0]); }
    assert(seq!['f', '2', 'm'] != "dmh"@) by { assert(seq!['f', '2', 'm'][0] != "dmh"@[0]); }
    assert(seq!['f', '2', 'm'] != "dup"@) by { assert(seq!['f', '2', 'm'][0] != "dup"@[0]); }
    assert(seq!['f', '2', 'm'] != "exp"@) by { assert(seq!['f', '2', 'm'][0] != "exp"@[0]); }
    assert(spec_named_op(seq!['f', '2', 'm']) == Some(NamedOp::Freq2midi));
    assert(seq!['f', 'r', 'e', 'q', '2', 'm', 'i', 'd', 'i'] =~= "freq2midi"@);
    assert(spec_named_op(seq!['f', 'r', 'e', 'q', '2', 'm', 'i', 'd', 'i']) == Some(NamedOp::Freq2midi));
    assert(seq!['b', 'p'] =~= "bp"@);
    assert(seq!['b', 'p'] != "c'"@) by { assert(seq!['b', 'p'][0] != "c'"@[0]); }
    assert(seq!['b', 'p'] != "cy"@) by { assert(seq!['b', 'p'][0] != "cy"@[0]); }
    assert(seq!['b', 'p'] != "dm"@) by { assert(seq!['b', 'p'][0] != "dm"@[0]); }
    assert(spec_named_op(seq!['b', 'p']) == Some(NamedOp::Bqbpf));
    assert(seq!['b', 'q', 'b', 'p', 'f'] =~= "bqbpf"@);
    assert(seq!['b', 'q', 'b', 'p', 'f'] != "cheb2"@) by { assert(seq!['b', 'q', 'b', 'p', 'f'][0] != "cheb2"@[0]); }
    assert(seq!['b', 'q', 'b', 'p', 'f'] != "cheb3"@) by { assert(seq!['b', 'q', 'b', 'p', 'f'][0] != "cheb3"@[0]); }
    assert(seq!['b', 'q', 'b', 'p', 'f'] != "cheb4"@) by { assert(seq!['b', 'q', 'b', 'p', 'f'][0] != "cheb4"@[0]); }
    assert(seq!['b', 'q', 'b', 'p', 'f'] != "cheb5"@) by { assert(seq!['b', 'q', 'b', 'p', 'f'][0] != "cheb5"@[0]); }
    assert(seq!['b', 'q', 'b', 'p', 'f'] != "cheb6"@) by { assert(seq!['b', 'q', 'b', 'p', 'f'][0] != "cheb6"@[0]); }
    assert(seq!['b', 'q', 'b', 'p', 'f'] != "clamp"@) by { assert(seq!['b', 'q', 'b', 'p', 'f'][0] != "clamp"@[0]); }
    assert(seq!['b', 'q', 'b', 'p', 'f'] != "cycle"@) by { assert(seq!['b', 'q', 'b', 'p', 'f'][0] != "cycle"@[0]); }
    assert(seq!['b', 'q', 'b', 'p', 'f'] != "biexp"@) by { assert(seq!['b', 'q', 'b', 'p', 'f'][1] != "biexp"@[1]); }
    assert(spec_named_op(seq!['b', 'q', 'b', 'p', 'f']) == Some(NamedOp::Bqbpf));
    assert(seq!['h'] =~= "h"@);
    assert(seq!['h'] != "*"@) by { assert(seq!['h'][0] != "*"@[0]); }
    assert(seq!['h'] != "+"@) by { assert(seq!['h'][0] != "+"@[0]); }
    assert(seq!['h'] != "-"@) by { assert(seq!['h'][0] != "-"@[0]); }
    assert(seq!['h'] != "/"@) by { assert(seq!['h'][0] != "/"@[0]); }
    assert(seq!['h'] != "\\"@) by { assert(seq!['h'][0] != "\\"@[0]); }
    assert(seq!['h'] != "^"@) by { assert(seq!['h'][0] != "^"@[0]); }
    assert(seq!['h'] != "%"@) by { assert(seq!['h'][0] != "%"@[0]); }
    assert(seq!['h'] != "c"@) by { assert(seq!['h'][0] != "c"@[0]); }
    assert(spec_named_op(seq!['h']) == Some(NamedOp::Bqhpf));
    assert(seq!['b', 'q', 'h', 'p', 'f'] =~= "bqhpf"@);
    assert(seq!['b', 'q', 'h', 'p', 'f'] != "cheb2"@) by { assert(seq!['b', 'q', 'h', 'p', 'f'][0] != "cheb2"@[0]); }
    assert(seq!['b', 'q', 'h', 'p', 'f'] != "cheb3"@) by { assert(seq!['b', 'q', 'h', 'p', 'f'][0] != "cheb3"@[0]); }
    assert(seq!['b', 'q', 'h', 'p', 'f'] != "cheb4"@) by { assert(seq!['b', 'q', 'h', 'p', 'f'][0] != "cheb4"@[0]); }
    assert(seq!['b', 'q', 'h', 'p', 'f'] != "cheb5"@) by { assert(seq!['b', 'q', 'h', 'p', 'f'][0] != "cheb5"@[0]); }
    assert(seq!['b', 'q', 'h', 'p', 'f'] != "cheb6"@) by { assert(seq!['b', 'q', 'h', 'p', 'f'][0] != "cheb6"@[0]); }
    assert(seq!['b', 'q', 'h', 'p', 'f'] != "clamp"@) by { assert(seq!['b', 'q', 'h', 'p', 'f'][0] != "clamp"@[0]); }
    assert(seq!['b', 'q', 'h', 'p', 'f'] != "cycle"@) by { assert(seq!['b', 'q', 'h', 'p', 'f'][0] != "cycle"@[0]); }
    assert(seq!['b', 'q', 'h', 'p', 'f'] != "biexp"@) by { assert(seq!['b', 'q', 'h', 'p', 'f'][1] != "biexp"@[1]); }
    assert(seq!['b', 'q', 'h', 'p', 'f'] != "bqbpf"@) by { assert(seq!['b', 'q', 'h', 'p', 'f'][2] != "bqbpf"@[2]); }
    assert(spec_named_op(seq!['b', 'q', 'h', 'p', 'f']) == Some(NamedOp::Bqhpf));
    assert(seq!['h', 'p', 'f'] =~= "hpf"@);
    assert(seq!['h', 'p', 'f'] != "mul"@) by { assert(seq!['h', 'p', 'f'][0] != "mul"@[0]); }
    assert(seq!['h', 'p', 'f'] != "add"@) by { assert(seq!['h', 'p', 'f'][0] != "add"@[0]); }
    assert(seq!['h', 'p', 'f'] != "sub"@) by { assert(seq!['h', 'p', 'f'][0] != "sub"@[0]); }
    assert(seq!['h', 'p', 'f'] != "div"@) by { assert(seq!['h', 'p', 'f'][0] != "div"@[0]); }
    assert(seq!['h', 'p', 'f'] != "pow"@) by { assert(seq!['h', 'p', 'f'][0] != "pow"@[0]); }
    assert(seq!['h', 'p', 'f'] != "mod"@) by { assert(seq!['h', 'p', 'f'][0] != "mod"@[0]); }
    assert(seq!['h', 'p', 'f'] != "cos"@) by { assert(seq!['h', 'p', 'f'][0] != "cos"@[0]); }
    assert(seq!['h', 'p', 'f'] != "dmh"@) by { assert(seq!['h', 'p', 'f'][0] != "dmh"@[0]); }
    assert(seq!['h', 'p', 'f'] != "dup"@) by { assert(seq!['h', 'p', 'f'][0] != "dup"@[0]); }
    assert(seq!['h', 'p', 'f'] != "exp"@) by { assert(seq!['h', 'p', 'f'][0] != "exp"@[0]); }
    assert(seq!['h', 'p', 'f'] != "f2m"@) by { assert(seq!['h', 'p', 'f'][0] != "f2m"@[0]); }
    assert(spec_named_op(seq!['h', 'p', 'f']) == Some(NamedOp::Hpf));
    assert(seq!['i', 'm', 'p', 'u', 'l', 's', 'e'] =~= "impulse"@);
    assert(seq!['i', 'm', 'p', 'u', 'l', 's', 'e'] != "cosine'"@) by { assert(seq!['i', 'm', 'p', 'u', 'l', 's', 'e'][0] != "cosine'"@[0]); }
    assert(spec_named_op(seq!['i', 'm', 'p', 'u', 'l', 's', 'e']) == Some(NamedOp::Impulse));
    assert(seq!['i', 'n'] =~= "in"@);
    assert(seq!['i', 'n'] != "c'"@) by { assert(seq!['i', 'n'][0] != "c'"@[0]); }
    assert(seq!['i', 'n'] != "cy"@) by { assert(seq!['i', 'n'][0] != "cy"@[0]); }
    assert(seq!['i', 'n'] != "dm"@) by { assert(seq!['i', 'n'][0] != "dm"@[0]); }
    assert(seq!['i', 'n'] != "bp"@) by { assert(seq!['i', 'n'][0] != "bp"@[0]); }
    assert(spec_named_op(seq!['i', 'n']) == Some(NamedOp::Input));
    assert(seq!['i', 'n', 'p', 'u', 't'] =~= "input"@);
    assert(seq!['i', 'n', 'p', 'u', 't'] != "cheb2"@) by { assert(seq!['i', 'n', 'p', 'u', 't'][0] != "cheb2"@[0]); }
    assert(seq!['i', 'n', 'p', 'u', 't'] != "cheb3"@) by { assert(seq!['i', 'n', 'p', 'u', 't'][0] != "cheb3"@[0]); }
    assert(seq!['i', 'n', 'p', 'u', 't'] != "cheb4"@) by { assert(seq!['i', 'n', 'p', 'u', 't'][0] != "cheb4"@[0]); }
    assert(seq!['i', 'n', 'p', 'u', 't'] != "cheb5"@) by { assert(seq!['i', 'n', 'p', 'u', 't'][0] != "cheb5"@[0]); }
    assert(seq!['i', 'n', 'p', 'u', 't'] != "cheb6"@) by { assert(seq!['i', 'n', 'p', 'u', 't'][0] != "cheb6"@[0]); }
    assert(seq!['i', 'n', 'p', 'u', 't'] != "clamp"@) by { assert(seq!['i', 'n', 'p', 'u', 't'][0] != "clamp"@[0]); }
    assert(seq!['i', 'n', 'p', 'u', 't'] != "cycle"@) by { assert(seq!['i', 'n', 'p', 'u', 't'][0] != "cycle"@[0]); }
    assert(seq!['i', 'n', 'p', 'u', 't'] != "biexp"@) by { assert(seq!['i', 'n', 'p', 'u', 't'][0] != "biexp"@[0]); }
    assert(seq!['i', 'n', 'p', 'u', 't'] != "bqbpf"@) by { assert(seq!['i', 'n', 'p', 'u', 't'][0] != "bqbpf"@[0]); }
    assert(seq!['i', 'n', 'p', 'u', 't'] != "bqhpf"@) by { assert(seq!['i', 'n', 'p', 'u', 't'][0] != "bqhpf"@[0]); }
    assert(spec_named_op(seq!['i', 'n', 'p', 'u', 't']) == Some(NamedOp::Input));
    assert(seq!['l'] =~= "l"@);
    assert(seq!['l'] != "*"@) by { assert(seq!['l'][0] != "*"@[0]); }
    assert(seq!['l'] != "+"@) by { assert(seq!['l'][0] != "+"@[0]); }
    assert(seq!['l'] != "-"@) by { assert(seq!['l'][0] != "-"@[0]); }
    assert(seq!['l'] != "/"@) by { assert(seq!['l'][0] != "/"@[0]); }
    assert(seq!['l'] != "\\"@) by { assert(seq!['l'][0] != "\\"@[0]); }
    assert(seq!['l'] != "^"@) by { assert(seq!['l'][0] != "^"@[0]); }
    assert(seq!['l'] != "%"@) by { assert(seq!['l'][0] != "%"@[0]); }
    assert(seq!['l'] != "c"@) by { assert(seq!['l'][0] != "c"@[0]); }
    assert(seq!['l'] != "h"@) by { assert(seq!['l'][0] != "h"@[0]); }
    assert(spec_named_op(seq!['l']) == Some(NamedOp::Bqlpf));
    assert(seq!['b', 'q', 'l', 'p', 'f'] =~= "bqlpf"@);
    assert(seq!['b', 'q', 'l', 'p', 'f'] != "cheb2"@) by { assert(seq!['b', 'q', 'l', 'p', 'f'][0] != "cheb2"@[0]); }
    assert(seq!['b', 'q', 'l', 'p', 'f'] != "cheb3"@) by { assert(seq!['b', 'q', 'l', 'p', 'f'][0] != "cheb3"@[0]); }
    assert(seq!['b', 'q', 'l', 'p', 'f'] != "cheb4"@) by { assert(seq!['b', 'q', 'l', 'p', 'f'][0] != "cheb4"@[0]); }
    assert(seq!['b', 'q', 'l', 'p', 'f'] != "cheb5"@) by { assert(seq!['b', 'q', 'l', 'p', 'f'][0] != "cheb5"@[0]); }
    assert(seq!['b', 'q', 'l', 'p', 'f'] != "cheb6"@) by { assert(seq!['b', 'q', 'l', 'p', 'f'][0] != "cheb6"@[0]); }
    assert(seq!['b', 'q', 'l', 'p', 'f'] != "clamp"@) by { assert(seq!['b', 'q', 'l', 'p', 'f'][0] != "clamp"@[0]); }
    assert(seq!['b', 'q', 'l', 'p', 'f'] != "cycle"@) by { assert(seq!['b', 'q', 'l', 'p', 'f'][0] != "cycle"@[0]); }
    assert(seq!['b', 'q', 'l', 'p', 'f'] != "biexp"@) by { assert(seq!['b', 'q', 'l', 'p', 'f'][1] != "biexp"@[1]); }
    assert(seq!['b', 'q', 'l', 'p', 'f'] != "bqbpf"@) by { assert(seq!['b', 'q', 'l', 'p', 'f'][2] != "bqbpf"@[2]); }
    assert(seq!['b', 'q', 'l', 'p', 'f'] != "bqhpf"@) by { assert(seq!['b', 'q', 'l', 'p', 'f'][2] != "bqhpf"@[2]); }
    assert(seq!['b', 'q', 'l', 'p', 'f'] != "input"@) by { assert(seq!['b', 'q', 'l', 'p', 'f'][0] != "input"@[0]); }
    assert(spec_named_op(seq!['b', 'q', 'l', 'p', 'f']) == Some(NamedOp::Bqlpf));
    assert forall|i: int| 0 <= i < op_words(NamedOp::Explin).len() implies spec_named_op(#[trigger] op_words(NamedOp::Explin)[i]) == Some(NamedOp::Explin) by {}
    assert forall|i: int| 0 <= i < op_words(NamedOp::Freq2midi).len() implies spec_named_op(#[trigger] op_words(NamedOp::Freq2midi)[i]) == Some(NamedOp::Freq2midi) by {}
    assert forall|i: int| 0 <= i < op_words(NamedOp::Bqbpf).len() implies spec_named_op(#[trigger] op_words(NamedOp::Bqbpf)[i]) == Some(NamedOp::Bqbpf) by {}
    assert forall|i: int| 0 <= i < op_words(NamedOp::Bqhpf).len() implies spec_named_op(#[trigger] op_words(NamedOp::Bqhpf)[i]) == Some(NamedOp::Bqhpf) by {}
    assert forall|i: int| 0 <= i < op_words(NamedOp::Hpf).len() implies spec_named_op(#[trigger] op_words(NamedOp::Hpf)[i]) == Some(NamedOp::Hpf) by {}
    assert forall|i: int| 0 <= i < op_words(NamedOp::Impulse).len() implies spec_named_op(#[trigger] op_words(NamedOp::Impulse)[i]) == Some(NamedOp::Impulse) by {}
    assert forall|i: int| 0 <= i < op_words(NamedOp::Input).len() implies spec_named_op(#[trigger] op_words(NamedOp::Input)[i]) == Some(NamedOp::Input) by {}
    assert forall|i: int| 0 <= i < op_words(NamedOp::Bqlpf).len() implies spec_named_op(#[trigger] op_words(NamedOp::Bqlpf)[i]) == Some(NamedOp::Bqlpf) by {}
}

#[verifier::rlimit(50)]
proof fn lemma_listed_words_part5()
    ensures
        forall|i: int| 0 <= i < op_words(NamedOp::Linexp).len() ==> spec_named_op(#[trigger] op_words(NamedOp::Linexp)[i]) == Some(NamedOp::Linexp),
        forall|i: int| 0 <= i < op_words(NamedOp::Project).len() ==> spec_named_op(#[trigger] op_words(NamedOp::Project)[i]) == Some(NamedOp::Project),
        forall|i: int| 0 <= i < op_words(NamedOp::Lpf).len() ==> spec_named_op(#[trigger] op_words(NamedOp::Lpf)[i]) == Some(NamedOp::Lpf),
        forall|i: int| 0 <= i < op_words(NamedOp::Metro).len() ==> spec_named_op(#[trigger] op_words(NamedOp::Metro)[i]) == Some(NamedOp::Metro),
        forall|i: int| 0 <= i < op_words(NamedOp::Midi2freq).len() ==> spec_named_op(#[trigger] op_words(NamedOp::Midi2freq)[i]) == Some(NamedOp::Midi2freq),
        forall|i: int| 0 <= i < op_words(NamedOp::Max).len() ==> spec_named_op(#[trigger] op_words(NamedOp::Max)[i]) == Some(NamedOp::Max),
        forall|i: int| 0 <= i < op_words(NamedOp::MetroHold).len() ==> spec_named_op(#[trigger] op_words(NamedOp::MetroHold)[i]) == Some(NamedOp::MetroHold),
        forall|i: int| 0 <= i < op_words(NamedOp::Min).len() ==> spec_named_op(#[trigger] op_words(NamedOp::Min)[i]) == Some(NamedOp::Min),
{
    reveal_strlit("*");
    reveal_strlit("mul");
    reveal_strlit("+");
    reveal_strlit("add");
    reveal_strlit("-");
    reveal_strlit("sub");
    reveal_strlit("/");
    reveal_strlit("div");
    reveal_strlit("\\");
    reveal_strlit("^");
    reveal_strlit("pow");
    reveal_strlit("%");
    reveal_strlit("mod");
    reveal_strlit("adsr");
    reveal_strlit("amp2db");
    reveal_strlit("a2db");
    reveal_strlit("c");
    reveal_strlit("c'");
    reveal_strlit("cheb2");
    reveal_strlit("cheb3");
    reveal_strlit("cheb4");
    reveal_strlit("cheb5");
    reveal_strlit("cheb6");
    reveal_strlit("circle");
    reveal_strlit("clamp");
    reveal_strlit("clip");
    reveal_strlit("cos");
    reveal_strlit("cos'");
    reveal_strlit("cosh");
    reveal_strlit("cosine");
    reveal_strlit("cosine'");
    reveal_strlit("cycle");
    reveal_strlit("cy");
    reveal_strlit("db2amp");
    reveal_strlit("db2a");
    reveal_strlit("dm");
    reveal_strlit("dmetro");
    reveal_strlit("dmh");
    reveal_strlit("dmetro_hold");
    reveal_strlit("dup");
    reveal_strlit("exp");
    reveal_strlit("biexp");
    reveal_strlit("expexp");
    reveal_strlit("explin");
    reveal_strlit("f2m");
    reveal_strlit("freq2midi");
    reveal_strlit("bp");
    reveal_strlit("bqbpf");
    reveal_strlit("h");
    reveal_strlit("bqhpf");
    reveal_strlit("hpf");
    reveal_strlit("impulse");
    reveal_strlit("in");
    reveal_strlit("input");
    reveal_strlit("l");
    reveal_strlit("bqlpf");
    reveal_strlit("linexp");
    reveal_strlit("linlin");
    reveal_strlit("project");
    reveal_strlit("lpf");
    reveal_strlit("m");
    reveal_strlit("metro");
    reveal_strlit("m2f");
    reveal_strlit("midi2freq");
    reveal_strlit("#");
    reveal_strlit("max");
    reveal_strlit("mh");
    reveal_strlit("metro_hold");
    reveal_strlit("min");
    assert(seq!['l', 'i', 'n', 'e', 'x', 'p'] =~= "linexp"@);
    assert(seq!['l', 'i', 'n', 'e', 'x', 'p'] != "amp2db"@) by { assert(seq!['l', 'i', 'n', 'e', 'x', 'p'][0] != "amp2db"@[0]); }
    assert(seq!['l', 'i', 'n', 'e', 'x', 'p'] != "circle"@) by { assert(seq!['l', 'i', 'n', 'e', 'x', 'p'][0] != "circle"@[0]); }
    assert(seq!['l', 'i', 'n', 'e', 'x', 'p'] != "cosine"@) by { assert(seq!['l', 'i', 'n', 'e', 'x', 'p'][0] != "cosine"@[0]); }
    assert(seq!['l', 'i', 'n', 'e', 'x', 'p'] != "db2amp"@) by { assert(seq!['l', 'i', 'n', 'e', 'x', 'p'][0] != "db2amp"@[0]); }
    assert(seq!['l', 'i', 'n', 'e', 'x', 'p'] != "dmetro"@) by { assert(seq!['l', 'i', 'n', 'e', 'x', 'p'][0] != "dmetro"@[0]); }
    assert(seq!['l', 'i', 'n', 'e', 'x', 'p'] != "expexp"@) by { assert(seq!['l', 'i', 'n', 'e', 'x', 'p'][0] != "expexp"@[0]); }
    assert(seq!['l', 'i', 'n', 'e', 'x', 'p'] != "explin"@) by { assert(seq!['l', 'i', 'n', 'e', 'x', 'p'][0] != "explin"@[0]); }
    assert(spec_named_op(seq!['l', 'i', 'n', 'e', 'x', 'p']) == Some(NamedOp::Linexp));
    assert(seq!['l', 'i', 'n', 'l', 'i', 'n'] =~= "linlin"@);
    assert(seq!['l', 'i', 'n', 'l', 'i', 'n'] != "amp2db"@) by { assert(seq!['l', 'i', 'n', 'l', 'i', 'n'][0] != "amp2db"@[0]); }
    assert(seq!['l', 'i', 'n', 'l', 'i', 'n'] != "circle"@) by { assert(seq!['l', 'i', 'n', 'l', 'i', 'n'][0] != "circle"@[0]); }
    assert(seq!['l', 'i', 'n', 'l', 'i', 'n'] != "cosine"@) by { assert(seq!['l', 'i', 'n', 'l', 'i', 'n'][0] != "cosine"@[0]); }
    assert(seq!['l', 'i', 'n', 'l', 'i', 'n'] != "db2amp"@) by { assert(seq!['l', 'i', 'n', 'l', 'i', 'n'][0] != "db2amp"@[0]); }
    assert(seq!['l', 'i', 'n', 'l', 'i', 'n'] != "dmetro"@) by { assert(seq!['l', 'i', 'n', 'l', 'i', 'n'][0] != "dmetro"@[0]); }
    assert(seq!['l', 'i', 'n', 'l', 'i', 'n'] != "expexp"@) by { assert(seq!['l', 'i', 'n', 'l', 'i', 'n'][0] != "expexp"@[0]); }
    assert(seq!['l', 'i', 'n', 'l', 'i', 'n'] != "explin"@) by { assert(seq!['l', 'i', 'n', 'l', 'i', 'n'][0] != "explin"@[0]); }
    assert(seq!['l', 'i', 'n', 'l', 'i', 'n'] != "linexp"@) by { assert(seq!['l', 'i', 'n', 'l', 'i', 'n'][3] != "linexp"@[3]); }
    assert(spec_named_op(seq!['l', 'i', 'n', 'l', 'i', 'n']) == Some(NamedOp::Project));
    assert(seq!['p', 'r', 'o', 'j', 'e', 'c', 't'] =~= "project"@);
    assert(seq!['p', 'r', 'o', 'j', 'e', 'c', 't'] != "cosine'"@) by { assert(seq!['p', 'r', 'o', 'j', 'e', 'c', 't'][0] != "cosine'"@[0]); }
    assert(seq!['p', 'r', 'o', 'j', 'e', 'c', 't'] != "impulse"@) by { assert(seq!['p', 'r', 'o', 'j', 'e', 'c', 't'][0] != "impulse"@[0]); }
    assert(spec_named_op(seq!['p', 'r', 'o', 'j', 'e', 'c', 't']) == Some(NamedOp::Project));
    assert(seq!['l', 'p', 'f'] =~= "lpf"@);
    assert(seq!['l', 'p', 'f'] != "mul"@) by { assert(seq!['l', 'p', 'f'][0] != "mul"@[0]); }
    assert(seq!['l', 'p', 'f'] != "add"@) by { assert(seq!['l', 'p', 'f'][0] != "add"@[0]); }
    assert(seq!['l', 'p', 'f'] != "sub"@) by { assert(seq!['l', 'p', 'f'][0] != "sub"@[0]); }
    assert(seq!['l', 'p', 'f'] != "div"@) by { assert(seq!['l', 'p', 'f'][0] != "div"@[0]); }
    assert(seq!['l', 'p', 'f'] != "pow"@) by { assert(seq!['l', 'p', 'f'][0] != "pow"@[0]); }
    assert(seq!['l', 'p', 'f'] != "mod"@) by { assert(seq!['l', 'p', 'f'][0] != "mod"@[0]); }
    assert(seq!['l', 'p', 'f'] != "cos"@) by { assert(seq!['l', 'p', 'f'][0] != "cos"@[0]); }
    assert(seq!['l', 'p', 'f'] != "dmh"@) by { assert(seq!['l', 'p', 'f'][0] != "dmh"@[0]); }
    assert(seq!['l', 'p', 'f'] != "dup"@) by { assert(seq!['l', 'p', 'f'][0] != "dup"@[0]); }
    assert(seq!['l', 'p', 'f'] != "exp"@) by { assert(seq!['l', 'p', 'f'][0] != "exp"@[0]); }
    assert(seq!['l', 'p', 'f'] != "f2m"@) by { assert(seq!['l', 'p', 'f'][0] != "f2m"@[0]); }
    assert(seq!['l', 'p', 'f'] != "hpf"@) by { assert(seq!['l', 'p', 'f'][0] != "hpf"@[0]); }
    assert(spec_named_op(seq!['l', 'p', 'f']) == Some(NamedOp::Lpf));
    assert(seq!['m'] =~= "m"@);
    assert(seq!['m'] != "*"@) by { assert(seq!['m'][0] != "*"@[0]); }
    assert(seq!['m'] != "+"@) by { assert(seq!['m'][0] != "+"@[0]); }
    assert(seq!['m'] != "-"@) by { assert(seq!['m'][0] != "-"@[0]); }
    assert(seq!['m'] != "/"@) by { assert(seq!['m'][0] != "/"@[0]); }
    assert(seq!['m'] != "\\"@) by { assert(seq!['m'][0] != "\\"@[0]); }
    assert(seq!['m'] != "^"@) by { assert(seq!['m'][0] != "^"@[0]); }
    assert(seq!['m'] != "%"@) by { assert(seq!['m'][0] != "%"@[0]); }
    assert(seq!['m'] != "c"@) by { assert(seq!['m'][0] != "c"@[0]); }
    assert(seq!['m'] != "h"@) by { assert(seq!['m'][0] != "h"@[0]); }
    assert(seq!['m'] != "l"@) by { assert(seq!['m'][0] != "l"@[0]); }
    assert(spec_named_op(seq!['m']) == Some(NamedOp::Metro));
    assert(seq!['m', 'e', 't', 'r', 'o'] =~= "metro"@);
    assert(seq!['m', 'e', 't', 'r', 'o'] != "cheb2"@) by { assert(seq!['m', 'e', 't', 'r', 'o'][0] != "cheb2"@[0]); }
    assert(seq!['m', 'e', 't', 'r', 'o'] != "cheb3"@) by { assert(seq!['m', 'e', 't', 'r', 'o'][0] != "cheb3"@[0]); }
    assert(seq!['m', 'e', 't', 'r', 'o'] != "cheb4"@) by { assert(seq!['m', 'e', 't', 'r', 'o'][0] != "cheb4"@[0]); }
    assert(seq!['m', 'e', 't', 'r', 'o'] != "cheb5"@) by { assert(seq!['m', 'e', 't', 'r', 'o'][0] != "cheb5"@[0]); }
    assert(seq!['m', 'e', 't', 'r', 'o'] != "cheb6"@) by { assert(seq!['m', 'e', 't', 'r', 'o'][0] != "cheb6"@[0]); }
    assert(seq!['m', 'e', 't', 'r', 'o'] != "clamp"@) by { assert(seq!['m', 'e', 't', 'r', 'o'][0] != "clamp"@[0]); }
    assert(seq!['m', 'e', 't', 'r', 'o'] != "cycle"@) by { assert(seq!['m', 'e', 't', 'r', 'o'][0] != "cycle"@[0]); }
    assert(seq!['m', 'e', 't', 'r', 'o'] != "biexp"@) by { assert(seq!['m', 'e', 't', 'r', 'o'][0] != "biexp"@[0]); }
    assert(seq!['m', 'e', 't', 'r', 'o'] != "bqbpf"@) by { assert(seq!['m', 'e', 't', 'r', 'o'][0] != "bqbpf"@[0]); }
    assert(seq!['m', 'e', 't', 'r', 'o'] != "bqhpf"@) by { assert(seq!['m', 'e', 't', 'r', 'o'][0] != "bqhpf"@[0]); }
    assert(seq!['m', 'e', 't', 'r', 'o'] != "input"@) by { assert(seq!['m', 'e', 't', 'r', 'o'][0] != "input"@[0]); }
    assert(seq!['m', 'e', 't', 'r', 'o'] != "bqlpf"@) by { assert(seq!['m', 'e', 't', 'r', 'o'][0] != "bqlpf"@[0]); }
    assert(spec_named_op(seq!['m', 'e', 't', 'r', 'o']) == Some(NamedOp::Metro));
    assert(seq!['m', '2', 'f'] =~= "m2f"@);
    assert(seq!['m', '2', 'f'] != "mul"@) by { assert(seq!['m', '2', 'f'][1] != "mul"@[1]); }
    assert(seq!['m', '2', 'f'] != "add"@) by { assert(seq!['m', '2', 'f'][0] != "add"@[0]); }
    assert(seq!['m', '2', 'f'] != "sub"@) by { assert(seq!['m', '2', 'f'][0] != "sub"@[0]); }
    assert(seq!['m', '2', 'f'] != "div"@) by { assert(seq!['m', '2', 'f'][0] != "div"@[0]); }
    assert(seq!['m', '2', 'f'] != "pow"@) by { assert(seq!['m', '2', 'f'][0] != "pow"@[0]); }
    assert(seq!['m', '2', 'f'] != "mod"@) by { assert(seq!['m', '2', 'f'][1] != "mod"@[1]); }
    assert(seq!['m', '2', 'f'] != "cos"@) by { assert(seq!['m', '2', 'f'][0] != "cos"@[0]); }
    assert(seq!['m', '2', 'f'] != "dmh"@) by { assert(seq!['m', '2', 'f'][0] != "dmh"@[0]); }
    assert(seq!['m', '2', 'f'] != "dup"@) by { assert(seq!['m', '2', 'f'][0] != "dup"@[0]); }
    assert(seq!['m', '2', 'f'] != "exp"@) by { assert(seq!['m', '2', 'f'][0] != "exp"@[0]); }
    assert(seq!['m', '2', 'f'] != "f2m"@) by { assert(seq!['m', '2', 'f'][0] != "f2m"@[0]); }
    assert(seq!['m', '2', 'f'] != "hpf"@) by { assert(seq!['m', '2', 'f'][0] != "hpf"@[0]); }
    assert(seq!['m', '2', 'f'] != "lpf"@) by { assert(seq!['m', '2', 'f'][0] != "lpf"@[0]); }
    assert(spec_named_op(seq!['m', '2', 'f']) == Some(NamedOp::Midi2freq));
    assert(seq!['m', 'i', 'd', 'i', '2', 'f', 'r', 'e', 'q'] =~= "midi2freq"@);
    assert(seq!['m', 'i', 'd', 'i', '2', 'f', 'r', 'e', 'q'] != "freq2midi"@) by { assert(seq!['m', 'i', 'd', 'i', '2', 'f', 'r', 'e', 'q'][0] != "freq2midi"@[0]); }
    assert(spec_named_op(seq!['m', 'i', 'd', 'i', '2', 'f', 'r', 'e', 'q']) == Some(NamedOp::Midi2freq));
    assert(seq!['#'] =~= "#"@);
    assert(seq!['#'] != "*"@) by { assert(seq!['#'][0] != "*"@[0]); }
    assert(seq!['#'] != "+"@) by { assert(seq!['#'][0] != "+"@[0]); }
    assert(seq!['#'] != "-"@) by { assert(seq!['#'][0] != "-"@[0]); }
    assert(seq!['#'] != "/"@) by { assert(seq!['#'][0] != "/"@[0]); }
    assert(seq!['#'] != "\\"@) by { assert(seq!['#'][0] != "\\"@[0]); }
    assert(seq!['#'] != "^"@) by { assert(seq!['#'][0] != "^"@[0]); }
    assert(seq!['#'] != "%"@) by { assert(seq!['#'][0] != "%"@[0]); }
    assert(seq!['#'] != "c"@) by { assert(seq!['#'][0] != "c"@[0]); }
    assert(seq!['#'] != "h"@) by { assert(seq!['#'][0] != "h"@[0]); }
    assert(seq!['#'] != "l"@) by { assert(seq!['#'][0] != "l"@[0]); }
    assert(seq!['#'] != "m"@) by { assert(seq!['#'][0] != "m"@[0]); }
    assert(spec_named_op(seq!['#']) == Some(NamedOp::Midi2freq));
    assert(seq!['m', 'a', 'x'] =~= "max"@);
    assert(seq!['m', 'a', 'x'] != "mul"@) by { assert(seq!['m', 'a', 'x'][1] != "mul"@[1]); }
    assert(seq!['m', 'a', 'x'] != "add"@) by { assert(seq!['m', 'a', 'x'][0] != "add"@[0]); }
    assert(seq!['m', 'a', 'x'] != "sub"@) by { assert(seq!['m', 'a', 'x'][0] != "sub"@[0]); }
    assert(seq!['m', 'a', 'x'] != "div"@) by { assert(seq!['m', 'a', 'x'][0] != "div"@[0]); }
    assert(seq!['m', 'a', 'x'] != "pow"@) by { assert(seq!['m', 'a', 'x'][0] != "pow"@[0]); }
    assert(seq!['m', 'a', 'x'] != "mod"@) by { assert(seq!['m', 'a', 'x'][1] != "mod"@[1]); }
    assert(seq!['m', 'a', 'x'] != "cos"@) by { assert(seq!['m', 'a', 'x'][0] != "cos"@[0]); }
    assert(seq!['m', 'a', 'x'] != "dmh"@) by { assert(seq!['m', 'a', 'x'][0] != "dmh"@[0]); }
    assert(seq!['m', 'a', 'x'] != "dup"@) by { assert(seq!['m', 'a', 'x'][0] != "dup"@[0]); }
    assert(seq!['m', 'a', 'x'] != "exp"@) by { assert(seq!['m', 'a', 'x'][0] != "exp"@[0]); }
    assert(seq!['m', 'a', 'x'] != "f2m"@) by { assert(seq!['m', 'a', 'x'][0] != "f2m"@[0]); }
    assert(seq!['m', 'a', 'x'] != "hpf"@) by { assert(seq!['m', 'a', 'x'][0] != "hpf"@[0]); }
    assert(seq!['m', 'a', 'x'] != "lpf"@) by { assert(seq!['m', 'a', 'x'][0] != "lpf"@[0]); }
    assert(seq!['m', 'a', 'x'] != "m2f"@) by { assert(seq!['m', 'a', 'x'][1] != "m2f"@[1]); }
    assert(spec_named_op(seq!['m', 'a', 'x']) == Some(NamedOp::Max));
    assert(seq!['m', 'h'] =~= "mh"@);
    assert(seq!['m', 'h'] != "c'"@) by { assert(seq!['m', 'h'][0] != "c'"@[0]); }
    assert(seq!['m', 'h'] != "cy"@) by { assert(seq!['m', 'h'][0] != "cy"@[0]); }
    assert(seq!['m', 'h'] != "dm"@) by { assert(seq!['m', 'h'][0] != "dm"@[0]); }
    assert(seq!['m', 'h'] != "bp"@) by { assert(seq!['m', 'h'][0] != "bp"@[0]); }
    assert(seq!['m', 'h'] != "in"@) by { assert(seq!['m', 'h'][0] != "in"@[0]); }
    assert(spec_named_op(seq!['m', 'h']) == Some(NamedOp::MetroHold));
    assert(seq!['m', 'e', 't', 'r', 'o', '_', 'h', 'o', 'l', 'd'] =~= "metro_hold"@);
    assert(spec_named_op(seq!['m', 'e', 't', 'r', 'o', '_', 'h', 'o', 'l', 'd']) == Some(NamedOp::MetroHold));
    assert(seq!['m', 'i', 'n'] =~= "min"@);
    assert(seq!['m', 'i', 'n'] != "mul"@) by { assert(seq!['m', 'i', 'n'][1] != "mul"@[1]); }
    assert(seq!['m', 'i', 'n'] != "add"@) by { assert(seq!['m', 'i', 'n'][0] != "add"@[0]); }
    assert(seq!['m', 'i', 'n'] != "sub"@) by { assert(seq!['m', 'i', 'n'][0] != "sub"@[0]); }
    assert(seq!['m', 'i', 'n'] != "div"@) by { assert(seq!['m', 'i', 'n'][0] != "div"@[0]); }
    assert(seq!['m', 'i', 'n'] != "pow"@) by { assert(seq!['m', 'i', 'n'][0] != "pow"@[0]); }
    assert(seq!['m', 'i', 'n'] != "mod"@) by { assert(seq!['m', 'i', 'n'][1] != "mod"@[1]); }
    assert(seq!['m', 'i', 'n'] != "cos"@) by { assert(seq!['m', 'i', 'n'][0] != "cos"@[0]); }
    assert(seq!['m', 'i', 'n'] != "dmh"@) by { assert(seq!['m', 'i', 'n'][0] != "dmh"@[0]); }
    assert(seq!['m', 'i', 'n'] != "dup"@) by { assert(seq!['m', 'i', 'n'][0] != "dup"@[0]); }
    assert(seq!['m', 'i', 'n'] != "exp"@) by { assert(seq!['m', 'i', 'n'][0] != "exp"@[0]); }
    assert(seq!['m', 'i', 'n'] != "f2m"@) by { assert(seq!['m', 'i', 'n'][0] != "f2m"@[0]); }
    assert(seq!['m', 'i', 'n'] != "hpf"@) by { assert(seq!['m', 'i', 'n'][0] != "hpf"@[0]); }
    assert(seq!['m', 'i', 'n'] != "lpf"@) by { assert(seq!['m', 'i', 'n'][0] != "lpf"@[0]); }
    assert(seq!['m', 'i', 'n'] != "m2f"@) by { assert(seq!['m', 'i', 'n'][1] != "m2f"@[1]); }
    assert(seq!['m', 'i', 'n'] != "max"@) by { assert(seq!['m', 'i', 'n'][1] != "max"@[1]); }
    assert(spec_named_op(seq!['m', 'i', 'n']) == Some(NamedOp::Min));
    assert forall|i: int| 0 <= i < op_words(NamedOp::Linexp).len() implies spec_named_op(#[trigger] op_words(NamedOp::Linexp)[i]) == Some(NamedOp::Linexp) by {}
    assert forall|i: int| 0 <= i < op_words(NamedOp::Project).len() implies spec_named_op(#[trigger] op_words(NamedOp::Project)[i]) == Some(NamedOp::Project) by {}
    assert forall|i: int| 0 <= i < op_words(NamedOp::Lpf).len() implies spec_named_op(#[trigger] op_words(NamedOp::Lpf)[i]) == Some(NamedOp::Lpf) by {}
    assert forall|i: int| 0 <= i < op_words(NamedOp::Metro).len() implies spec_named_op(#[trigger] op_words(NamedOp::Metro)[i]) == Some(NamedOp::Metro) by {}
    assert forall|i: int| 0 <= i < op_words(NamedOp::Midi2freq).len() implies spec_named_op(#[trigger] op_words(NamedOp::Midi2freq)[i]) == Some(NamedOp::Midi2freq) by {}
    assert forall|i: int| 0 <= i < op_words(NamedOp::Max).len() implies spec_named_op(#[trigger] op_words(NamedOp::Max)[i]) == Some(NamedOp::Max) by {}
    assert forall|i: int| 0 <= i < op_words(NamedOp::MetroHold).len() implies spec_named_op(#[trigger] op_words(NamedOp::MetroHold)[i]) == Some(NamedOp::MetroHold) by {}
    assert forall|i: int| 0 <= i < op_words(NamedOp::Min).len() implies spec_named_op(#[trigger] op_words(NamedOp::Min)[i]) == Some(NamedOp::Min) by {}
}

#[verifier::rlimit(50)]
proof fn lemma_listed_words_part6()
    ensures
        forall|i: int| 0 <= i < op_words(NamedOp::WhiteNoise).len() ==> spec_named_op(#[trigger] op_words(NamedOp::WhiteNoise)[i]) == Some(NamedOp::WhiteNoise),
        forall|i: int| 0 <= i < op_words(NamedOp::Bqnotch).len() ==> spec_named_op(#[trigger] op_words(NamedOp::Bqnotch)[i]) == Some(NamedOp::Bqnotch),
        forall|i: int| 0 <= i < op_words(NamedOp::PulseOsc).len() ==> spec_named_op(#[trigger] op_words(NamedOp::PulseOsc)[i]) == Some(NamedOp::PulseOsc),
        forall|i: int| 0 <= i < op_words(NamedOp::Pan1).len() ==> spec_named_op(#[trigger] op_words(NamedOp::Pan1)[i]) == Some(NamedOp::Pan1),
        forall|i: int| 0 <= i < op_words(NamedOp::Pan2).len() ==> spec_named_op(#[trigger] op_words(NamedOp::Pan2)[i]) == Some(NamedOp::Pan2),
        forall|i: int| 0 <= i < op_words(NamedOp::Panx).len() ==> spec_named_op(#[trigger] op_words(NamedOp::Panx)[i]) == Some(NamedOp::Panx),
        forall|i: int| 0 <= i < op_words(NamedOp::Pi).len() ==> spec_named_op(#[trigger] op_words(NamedOp::Pi)[i]) == Some(NamedOp::Pi),
        forall|i: int| 0 <= i < op_words(NamedOp::Tau).len() ==> spec_named_op(#[trigger] op_words(NamedOp::Tau)[i]) == Some(NamedOp::Tau),
{
    reveal_strlit("*");
    reveal_strlit("mul");
    reveal_strlit("+");
    reveal_strlit("add");
    reveal_strlit("-");
    reveal_strlit("sub");
    reveal_strlit("/");
    reveal_strlit("div");
    reveal_strlit("\\");
    reveal_strlit("^");
    reveal_strlit("pow");
    reveal_strlit("%");
    reveal_strlit("mod");
    reveal_strlit("adsr");
    reveal_strlit("amp2db");
    reveal_strlit("a2db");
    reveal_strlit("c");
    reveal_strlit("c'");
    reveal_strlit("cheb2");
    reveal_strlit("cheb3");
    reveal_strlit("cheb4");
    reveal_strlit("cheb5");
    reveal_strlit("cheb6");
    reveal_strlit("circle");
    reveal_strlit("clamp");
    reveal_strlit("clip");
    reveal_strlit("cos");
    reveal_strlit("cos'");
    reveal_strlit("cosh");
    reveal_strlit("cosine");
    reveal_strlit("cosine'");
    reveal_strlit("cycle");
    reveal_strlit("cy");
    reveal_strlit("db2amp");
    reveal_strlit("db2a");
    reveal_strlit("dm");
    reveal_strlit("dmetro");
    reveal_strlit("dmh");
    reveal_strlit("dmetro_hold");
    reveal_strlit("dup");
    reveal_strlit("exp");
    reveal_strlit("biexp");
    reveal_strlit("expexp");
    reveal_strlit("explin");
    reveal_strlit("f2m");
    reveal_strlit("freq2midi");
    reveal_strlit("bp");
    reveal_strlit("bqbpf");
    reveal_strlit("h");
    reveal_strlit("bqhpf");
    reveal_strlit("hpf");
    reveal_strlit("impulse");
    reveal_strlit("in");
    reveal_strlit("input");
    reveal_strlit("l");
    reveal_strlit("bqlpf");
    reveal_strlit("linexp");
    reveal_strlit("linlin");
    reveal_strlit("project");
    reveal_strlit("lpf");
    reveal_strlit("m");
    reveal_strlit("metro");
    reveal_strlit("m2f");
    reveal_strlit("midi2freq");
    reveal_strlit("#");
    reveal_strlit("max");
    reveal_strlit("mh");
    reveal_strlit("metro_hold");
    reveal_strlit("min");
    reveal_strlit("n");
    reveal_strlit("noise");
    reveal_strlit("whiteNoise");
    reveal_strlit("notch");
    reveal_strlit("bqnotch");
    reveal_strlit("p");
    reveal_strlit("pan1");
    reveal_strlit("pan2");
    reveal_strlit("panx");
    reveal_strlit("pi");
    reveal_strlit("tau");
    assert(seq!['n'] =~= "n"@);
    assert(seq!['n'] != "*"@) by { assert(seq!['n'][0] != "*"@[0]); }
    assert(seq!['n'] != "+"@) by { assert(seq!['n'][0] != "+"@[0]); }
    assert(seq!['n'] != "-"@) by { assert(seq!['n'][0] != "-"@[0]); }
    assert(seq!['n'] != "/"@) by { assert(seq!['n'][0] != "/"@[0]); }
    assert(seq!['n'] != "\\"@) by { assert(seq!['n'][0] != "\\"@[0]); }
    assert(seq!['n'] != "^"@) by { assert(seq!['n'][0] != "^"@[0]); }
    assert(seq!['n'] != "%"@) by { assert(seq!['n'][0] != "%"@[0]); }
    assert(seq!['n'] != "c"@) by { assert(seq!['n'][0] != "c"@[0]); }
    assert(seq!['n'] != "h"@) by { assert(seq!['n'][0] != "h"@[0]); }
    assert(seq!['n'] != "l"@) by { assert(seq!['n'][0] != "l"@[0]); }
    assert(seq!['n'] != "m"@) by { assert(seq!['n'][0] != "m"@[0]); }
    assert(seq!['n'] != "#"@) by { assert(seq!['n'][0] != "#"@[0]); }
    assert(spec_named_op(seq!['n']) == Some(NamedOp::WhiteNoise));
    assert(seq!['n', 'o', 'i', 's', 'e'] =~= "noise"@);
    assert(seq!['n', 'o', 'i', 's', 'e'] != "cheb2"@) by { assert(seq!['n', 'o', 'i', 's', 'e'][0] != "cheb2"@[0]); }
    assert(seq!['n', 'o', 'i', 's', 'e'] != "cheb3"@) by { assert(seq!['n', 'o', 'i', 's', 'e'][0] != "cheb3"@[0]); }
    assert(seq!['n', 'o', 'i', 's', 'e'] != "cheb4"@) by { assert(seq!['n', 'o', 'i', 's', 'e'][0] != "cheb4"@[0]); }
    assert(seq!['n', 'o', 'i', 's', 'e'] != "cheb5"@) by { assert(seq!['n', 'o', 'i', 's', 'e'][0] != "cheb5"@[0]); }
    assert(seq!['n', 'o', 'i', 's', 'e'] != "cheb6"@) by { assert(seq!['n', 'o', 'i', 's', 'e'][0] != "cheb6"@[0]); }
    assert(seq!['n', 'o', 'i', 's', 'e'] != "clamp"@) by { assert(seq!['n', 'o', 'i', 's', 'e'][0] != "clamp"@[0]); }
    assert(seq!['n', 'o', 'i', 's', 'e'] != "cycle"@) by { assert(seq!['n', 'o', 'i', 's', 'e'][0] != "cycle"@[0]); }
    assert(seq!['n', 'o', 'i', 's', 'e'] != "biexp"@) by { assert(seq!['n', 'o', 'i', 's', 'e'][0] != "biexp"@[0]); }
    assert(seq!['n', 'o', 'i', 's', 'e'] != "bqbpf"@) by { assert(seq!['n', 'o', 'i', 's', 'e'][0] != "bqbpf"@[0]); }
    assert(seq!['n', 'o', 'i', 's', 'e'] != "bqhpf"@) by { assert(seq!['n', 'o', 'i', 's', 'e'][0] != "bqhpf"@[0]); }
    assert(seq!['n', 'o', 'i', 's', 'e'] != "input"@) by { assert(seq!['n', 'o', 'i', 's', 'e'][0] != "input"@[0]); }
    assert(seq!['n', 'o', 'i', 's', 'e'] != "bqlpf"@) by { assert(seq!['n', 'o', 'i', 's', 'e'][0] != "bqlpf"@[0]); }
    assert(seq!['n', 'o', 'i', 's', 'e'] != "metro"@) by { assert(seq!['n', 'o', 'i', 's', 'e'][0] != "metro"@[0]); }
    assert(spec_named_op(seq!['n', 'o', 'i', 's', 'e']) == Some(NamedOp::WhiteNoise));
    assert(seq!['w', 'h', 'i', 't', 'e', 'N', 'o', 'i', 's', 'e'] =~= "whiteNoise"@);
    assert(seq!['w', 'h', 'i', 't', 'e', 'N', 'o', 'i', 's', 'e'] != "metro_hold"@) by { assert(seq!['w', 'h', 'i', 't', 'e', 'N', 'o', 'i', 's', 'e'][0] != "metro_hold"@[0]); }
    assert(spec_named_op(seq!['w', 'h', 'i', 't', 'e', 'N', 'o', 'i', 's', 'e']) == Some(NamedOp::WhiteNoise));
    assert(seq!['n', 'o', 't', 'c', 'h'] =~= "notch"@);
    assert(seq!['n', 'o', 't', 'c', 'h'] != "cheb2"@) by { assert(seq!['n', 'o', 't', 'c', 'h'][0] != "cheb2"@[0]); }
    assert(seq!['n', 'o', 't', 'c', 'h'] != "cheb3"@) by { assert(seq!['n', 'o', 't', 'c', 'h'][0] != "cheb3"@[0]); }
    assert(seq!['n', 'o', 't', 'c', 'h'] != "cheb4"@) by { assert(seq!['n', 'o', 't', 'c', 'h'][0] != "cheb4"@[0]); }
    assert(seq!['n', 'o', 't', 'c', 'h'] != "cheb5"@) by { assert(seq!['n', 'o', 't', 'c', 'h'][0] != "cheb5"@[0]); }
    assert(seq!['n', 'o', 't', 'c', 'h'] != "cheb6"@) by { assert(seq!['n', 'o', 't', 'c', 'h'][0] != "cheb6"@[0]); }
    assert(seq!['n', 'o', 't', 'c', 'h'] != "clamp"@) by { assert(seq!['n', 'o', 't', 'c', 'h'][0] != "clamp"@[0]); }
    assert(seq!['n', 'o', 't', 'c', 'h'] != "cycle"@) by { assert(seq!['n', 'o', 't', 'c', 'h'][0] != "cycle"@[0]); }
    assert(seq!['n', 'o', 't', 'c', 'h'] != "biexp"@) by { assert(seq!['n', 'o', 't', 'c', 'h'][0] != "biexp"@[0]); }
    assert(seq!['n', 'o', 't', 'c', 'h'] != "bqbpf"@) by { assert(seq!['n', 'o', 't', 'c', 'h'][0] != "bqbpf"@[0]); }
    assert(seq!['n', 'o', 't', 'c', 'h'] != "bqhpf"@) by { assert(seq!['n', 'o', 't', 'c', 'h'][0] != "bqhpf"@[0]); }
    assert(seq!['n', 'o', 't', 'c', 'h'] != "input"@) by { assert(seq!['n', 'o', 't', 'c', 'h'][0] != "input"@[0]); }
    assert(seq!['n', 'o', 't', 'c', 'h'] != "bqlpf"@) by { assert(seq!['n', 'o', 't', 'c', 'h'][0] != "bqlpf"@[0]); }
    assert(seq!['n', 'o', 't', 'c', 'h'] != "metro"@) by { assert(seq!['n', 'o', 't', 'c', 'h'][0] != "metro"@[0]); }
    assert(seq!['n', 'o', 't', 'c', 'h'] != "noise"@) by { assert(seq!['n', 'o', 't', 'c', 'h'][2] != "noise"@[2]); }
    assert(spec_named_op(seq!['n', 'o', 't', 'c', 'h']) == Some(NamedOp::Bqnotch));
    assert(seq!['b', 'q', 'n', 'o', 't', 'c', 'h'] =~= "bqnotch"@);
    assert(seq!['b', 'q', 'n', 'o', 't', 'c', 'h'] != "cosine'"@) by { assert(seq!['b', 'q', 'n', 'o', 't', 'c', 'h'][0] != "cosine'"@[0]); }
    assert(seq!['b', 'q', 'n', 'o', 't', 'c', 'h'] != "impulse"@) by { assert(seq!['b', 'q', 'n', 'o', 't', 'c', 'h'][0] != "impulse"@[0]); }
    assert(seq!['b', 'q', 'n', 'o', 't', 'c', 'h'] != "project"@) by { assert(seq!['b', 'q', 'n', 'o', 't', 'c', 'h'][0] != "project"@[0]); }
    assert(spec_named_op(seq!['b', 'q', 'n', 'o', 't', 'c', 'h']) == Some(NamedOp::Bqnotch));
    assert(seq!['p'] =~= "p"@);
    assert(seq!['p'] != "*"@) by { assert(seq!['p'][0] != "*"@[0]); }
    assert(seq!['p'] != "+"@) by { assert(seq!['p'][0] != "+"@[0]); }
    assert(seq!['p'] != "-"@) by { assert(seq!['p'][0] != "-"@[0]); }
    assert(seq!['p'] != "/"@) by { assert(seq!['p'][0] != "/"@[0]); }
    assert(seq!['p'] != "\\"@) by { assert(seq!['p'][0] != "\\"@[0]); }
    assert(seq!['p'] != "^"@) by { assert(seq!['p'][0] != "^"@[0]); }
    assert(seq!['p'] != "%"@) by { assert(seq!['p'][0] != "%"@[0]); }
    assert(seq!['p'] != "c"@) by { assert(seq!['p'][0] != "c"@[0]); }
    assert(seq!['p'] != "h"@) by { assert(seq!['p'][0] != "h"@[0]); }
    assert(seq!['p'] != "l"@) by { assert(seq!['p'][0] != "l"@[0]); }
    assert(seq!['p'] != "m"@) by { assert(seq!['p'][0] != "m"@[0]); }
    assert(seq!['p'] != "#"@) by { assert(seq!['p'][0] != "#"@[0]); }
    assert(seq!['p'] != "n"@) by { assert(seq!['p'][0] != "n"@[0]); }
    assert(spec_named_op(seq!['p']) == Some(NamedOp::PulseOsc));
    assert(seq!['p', 'a', 'n', '1'] =~= "pan1"@);
    assert(seq!['p', 'a', 'n', '1'] != "adsr"@) by { assert(seq!['p', 'a', 'n', '1'][0] != "adsr"@[0]); }
    assert(seq!['p', 'a', 'n', '1'] != "a2db"@) by { assert(seq!['p', 'a', 'n', '1'][0] != "a2db"@[0]); }
    assert(seq!['p', 'a', 'n', '1'] != "clip"@) by { assert(seq!['p', 'a', 'n', '1'][0] != "clip"@[0]); }
    assert(seq!['p', 'a', 'n', '1'] != "cos'"@) by { assert(seq!['p', 'a', 'n', '1'][0] != "cos'"@[0]); }
    assert(seq!['p', 'a', 'n', '1'] != "cosh"@) by { assert(seq!['p', 'a', 'n', '1'][0] != "cosh"@[0]); }
    assert(seq!['p', 'a', 'n', '1'] != "db2a"@) by { assert(seq!['p', 'a', 'n', '1'][0] != "db2a"@[0]); }
    assert(spec_named_op(seq!['p', 'a', 'n', '1']) == Some(NamedOp::Pan1));
    assert(seq!['p', 'a', 'n', '2'] =~= "pan2"@);
    assert(seq!['p', 'a', 'n', '2'] != "adsr"@) by { assert(seq!['p', 'a', 'n', '2'][0] != "adsr"@[0]); }
    assert(seq!['p', 'a', 'n', '2'] != "a2db"@) by { assert(seq!['p', 'a', 'n', '2'][0] != "a2db"@[0]); }
    assert(seq!['p', 'a', 'n', '2'] != "clip"@) by { assert(seq!['p', 'a', 'n', '2'][0] != "clip"@[0]); }
    assert(seq!['p', 'a', 'n', '2'] != "cos'"@) by { assert(seq!['p', 'a', 'n', '2'][0] != "cos'"@[0]); }
    assert(seq!['p', 'a', 'n', '2'] != "cosh"@) by { assert(seq!['p', 'a', 'n', '2'][0] != "cosh"@[0]); }
    assert(seq!['p', 'a', 'n', '2'] != "db2a"@) by { assert(seq!['p', 'a', 'n', '2'][0] != "db2a"@[0]); }
    assert(seq!['p', 'a', 'n', '2'] != "pan1"@) by { assert(seq!['p', 'a', 'n', '2'][3] != "pan1"@[3]); }
    assert(spec_named_op(seq!['p', 'a', 'n', '2']) == Some(NamedOp::Pan2));
    assert(seq!['p', 'a', 'n', 'x'] =~= "panx"@);
    assert(seq!['p', 'a', 'n', 'x'] != "adsr"@) by { assert(seq!['p', 'a', 'n', 'x'][0] != "adsr"@[0]); }
    assert(seq!['p', 'a', 'n', 'x'] != "a2db"@) by { assert(seq!['p', 'a', 'n', 'x'][0] != "a2db"@[0]); }
    assert(seq!['p', 'a', 'n', 'x'] != "clip"@) by { assert(seq!['p', 'a', 'n', 'x'][0] != "clip"@[0]); }
    assert(seq!['p', 'a', 'n', 'x'] != "cos'"@) by { assert(seq!['p', 'a', 'n', 'x'][0] != "cos'"@[0]); }
    assert(seq!['p', 'a', 'n', 'x'] != "cosh"@) by { assert(seq!['p', 'a', 'n', 'x'][0] != "cosh"@[0]); }
    assert(seq!['p', 'a', 'n', 'x'] != "db2a"@) by { assert(seq!['p', 'a', 'n', 'x'][0] != "db2a"@[0]); }
    assert(seq!['p', 'a', 'n', 'x'] != "pan1"@) by { assert(seq!['p', 'a', 'n', 'x'][3] != "pan1"@[3]); }
    assert(seq!['p', 'a', 'n', 'x'] != "pan2"@) by { assert(seq!['p', 'a', 'n', 'x'][3] != "pan2"@[3]); }
    assert(spec_named_op(seq!['p', 'a', 'n', 'x']) == Some(NamedOp::Panx));
    assert(seq!['p', 'i'] =~= "pi"@);
    assert(seq!['p', 'i'] != "c'"@) by { assert(seq!['p', 'i'][0] != "c'"@[0]); }
    assert(seq!['p', 'i'] != "cy"@) by { assert(seq!['p', 'i'][0] != "cy"@[0]); }
    assert(seq!['p', 'i'] != "dm"@) by { assert(seq!['p', 'i'][0] != "dm"@[0]); }
    assert(seq!['p', 'i'] != "bp"@) by { assert(seq!['p', 'i'][0] != "bp"@[0]); }
    assert(seq!['p', 'i'] != "in"@) by { assert(seq!['p', 'i'][0] != "in"@[0]); }
    assert(seq!['p', 'i'] != "mh"@) by { assert(seq!['p', 'i'][0] != "mh"@[0]); }
    assert(spec_named_op(seq!['p', 'i']) == Some(NamedOp::Pi));
    assert(seq!['t', 'a', 'u'] =~= "tau"@);
    assert(seq!['t', 'a', 'u'] != "mul"@) by { assert(seq!['t', 'a', 'u'][0] != "mul"@[0]); }
    assert(seq!['t', 'a', 'u'] != "add"@) by { assert(seq!['t', 'a', 'u'][0] != "add"@[0]); }
    assert(seq!['t', 'a', 'u'] != "sub"@) by { assert(seq!['t', 'a', 'u'][0] != "sub"@[0]); }
    assert(seq!['t', 'a', 'u'] != "div"@) by { assert(seq!['t', 'a', 'u'][0] != "div"@[0]); }
    assert(seq!['t', 'a', 'u'] != "pow"@) by { assert(seq!['t', 'a', 'u'][0] != "pow"@[0]); }
    assert(seq!['t', 'a', 'u'] != "mod"@) by { assert(seq!['t', 'a', 'u'][0] != "mod"@[0]); }
    assert(seq!['t', 'a', 'u'] != "cos"@) by { assert(seq!['t', 'a', 'u'][0] != "cos"@[0]); }
    assert(seq!['t', 'a', 'u'] != "dmh"@) by { assert(seq!['t', 'a', 'u'][0] != "dmh"@[0]); }
    assert(seq!['t', 'a', 'u'] != "dup"@) by { assert(seq!['t', 'a', 'u'][0] != "dup"@[0]); }
    assert(seq!['t', 'a', 'u'] != "exp"@) by { assert(seq!['t', 'a', 'u'][0] != "exp"@[0]); }
    assert(seq!['t', 'a', 'u'] != "f2m"@) by { assert(seq!['t', 'a', 'u'][0] != "f2m"@[0]); }
    assert(seq!['t', 'a', 'u'] != "hpf"@) by { assert(seq!['t', 'a', 'u'][0] != "hpf"@[0]); }
    assert(seq!['t', 'a', 'u'] != "lpf"@) by { assert(seq!['t', 'a', 'u'][0] != "lpf"@[0]); }
    assert(seq!['t', 'a', 'u'] != "m2f"@) by { assert(seq!['t', 'a', 'u'][0] != "m2f"@[0]); }
    assert(seq!['t', 'a', 'u'] != "max"@) by { assert(seq!['t', 'a', 'u'][0] != "max"@[0]); }
    assert(seq!['t', 'a', 'u'] != "min"@) by { assert(seq!['t', 'a', 'u'][0] != "min"@[0]); }
    assert(spec_named_op(seq!['t', 'a', 'u']) == Some(NamedOp::Tau));
    assert forall|i: int| 0 <= i < op_words(NamedOp::WhiteNoise).len() implies spec_named_op(#[trigger] op_words(NamedOp::WhiteNoise)[i]) == Some(NamedOp::WhiteNoise) by {}
    assert forall|i: int| 0 <= i < op_words(NamedOp::Bqnotch).len() implies spec_named_op(#[trigger] op_words(NamedOp::Bqnotch)[i]) == Some(NamedOp::Bqnotch) by {}
    assert forall|i: int| 0 <= i < op_words(NamedOp::PulseOsc).len() implies spec_named_op(#[trigger] op_words(NamedOp::PulseOsc)[i]) == Some(NamedOp::PulseOsc) by {}
    assert forall|i: int| 0 <= i < op_words(NamedOp::Pan1).len() implies spec_named_op(#[trigger] op_words(NamedOp::Pan1)[i]) == Some(NamedOp::Pan1) by {}
    assert forall|i: int| 0 <= i < op_words(NamedOp::Pan2).len() implies spec_named_op(#[trigger] op_words(NamedOp::Pan2)[i]) == Some(NamedOp::Pan2) by {}
    assert forall|i: int| 0 <= i < op_words(NamedOp::Panx).len() implies spec_named_op(#[trigger] op_words(NamedOp::Panx)[i]) == Some(NamedOp::Panx) by {}
    assert forall|i: int| 0 <= i < op_words(NamedOp::Pi).len() implies spec_named_op(#[trigger] op_words(NamedOp::Pi)[i]) == Some(NamedOp::Pi) by {}
    assert forall|i: int| 0 <= i < op_words(NamedOp::Tau).len() implies spec_named_op(#[trigger] op_words(NamedOp::Tau)[i]) == Some(NamedOp::Tau) by {}
}

#[verifier::rlimit(50)]
proof fn lemma_listed_words_part7()
    ensures
        forall|i: int| 0 <= i < op_words(NamedOp::Pitch).len() ==> spec_named_op(#[trigger] op_words(NamedOp::Pitch)[i]) == Some(NamedOp::Pitch),
        forall|i: int| 0 <= i < op_words(NamedOp::Pop).len() ==> spec_named_op(#[trigger] op_words(NamedOp::Pop)[i]) == Some(NamedOp::Pop),
        forall|i: int| 0 <= i < op_words(NamedOp::Prime).len() ==> spec_named_op(#[trigger] op_words(NamedOp::Prime)[i]) == Some(NamedOp::Prime),
        forall|i: int| 0 <= i < op_words(NamedOp::Pulse).len() ==> spec_named_op(#[trigger] op_words(NamedOp::Pulse)[i]) == Some(NamedOp::Pulse),
        forall|i: int| 0 <= i < op_words(NamedOp::Quantize).len() ==> spec_named_op(#[trigger] op_words(NamedOp::Quantize)[i]) == Some(NamedOp::Quantize),
        forall|i: int| 0 <= i < op_words(NamedOp::Range).len() ==> spec_named_op(#[trigger] op_words(NamedOp::Range)[i]) == Some(NamedOp::Range),
        forall|i: int| 0 <= i < op_words(NamedOp::Rot).len() ==> spec_named_op(#[trigger] op_words(NamedOp::Rot)[i]) == Some(NamedOp::Rot),
        forall|i: int| 0 <= i < op_words(NamedOp::Round).len() ==> spec_named_op(#[trigger] op_words(NamedOp::Round)[i]) == Some(NamedOp::Round),
{
    reveal_strlit("*");
    reveal_strlit("mul");
    reveal_strlit("+");
    reveal_strlit("add");
    reveal_strlit("-");
    reveal_strlit("sub");
    reveal_strlit("/");
    reveal_strlit("div");
    reveal_strlit("\\");
    reveal_strlit("^");
    reveal_strlit("pow");
    reveal_strlit("%");
    reveal_strlit("mod");
    reveal_strlit("adsr");
    reveal_strlit("amp2db");
    reveal_strlit("a2db");
    reveal_strlit("c");
    reveal_strlit("c'");
    reveal_strlit("cheb2");
    reveal_strlit("cheb3");
    reveal_strlit("cheb4");
    reveal_strlit("cheb5");
    reveal_strlit("cheb6");
    reveal_strlit("circle");
    reveal_strlit("clamp");
    reveal_strlit("clip");
    reveal_strlit("cos");
    reveal_strlit("cos'");
    reveal_strlit("cosh");
    reveal_strlit("cosine");
    reveal_strlit("cosine'");
    reveal_strlit("cycle");
    reveal_strlit("cy");
    reveal_strlit("db2amp");
    reveal_strlit("db2a");
    reveal_strlit("dm");
    reveal_strlit("dmetro");
    reveal_strlit("dmh");
    reveal_strlit("dmetro_hold");
    reveal_strlit("dup");
    reveal_strlit("exp");
    reveal_strlit("biexp");
    reveal_strlit("expexp");
    reveal_strlit("explin");
    reveal_strlit("f2m");
    reveal_strlit("freq2midi");
    reveal_strlit("bp");
    reveal_strlit("bqbpf");
    reveal_strlit("h");
    reveal_strlit("bqhpf");
    reveal_strlit("hpf");
    reveal_strlit("impulse");
    reveal_strlit("in");
    reveal_strlit("input");
    reveal_strlit("l");
    reveal_strlit("bqlpf");
    reveal_strlit("linexp");
    reveal_strlit("linlin");
    reveal_strlit("project");
    reveal_strlit("lpf");
    reveal_strlit("m");
    reveal_strlit("metro");
    reveal_strlit("m2f");
    reveal_strlit("midi2freq");
    reveal_strlit("#");
    reveal_strlit("max");
    reveal_strlit("mh");
    reveal_strlit("metro_hold");
    reveal_strlit("min");
    reveal_strlit("n");
    reveal_strlit("noise");
    reveal_strlit("whiteNoise");
    reveal_strlit("notch");
    reveal_strlit("bqnotch");
    reveal_strlit("p");
    reveal_strlit("pan1");
    reveal_strlit("pan2");
    reveal_strlit("panx");
    reveal_strlit("pi");
    reveal_strlit("tau");
    reveal_strlit("pitch");
    reveal_strlit("pop");
    reveal_strlit("prime");
    reveal_strlit("pulse");
    reveal_strlit("q");
    reveal_strlit("quantize");
    reveal_strlit("r");
    reveal_strlit("range");
    reveal_strlit("rot");
    reveal_strlit("round");
    assert(seq!['p', 'i', 't', 'c', 'h'] =~= "pitch"@);
    assert(seq!['p', 'i', 't', 'c', 'h'] != "cheb2"@) by { assert(seq!['p', 'i', 't', 'c', 'h'][0] != "cheb2"@[0]); }
    assert(seq!['p', 'i', 't', 'c', 'h'] != "cheb3"@) by { assert(seq!['p', 'i', 't', 'c', 'h'][0] != "cheb3"@[0]); }
    assert(seq!['p', 'i', 't', 'c', 'h'] != "cheb4"@) by { assert(seq!['p', 'i', 't', 'c', 'h'][0] != "cheb4"@[0]); }
    assert(seq!['p', 'i', 't', 'c', 'h'] != "cheb5"@) by { assert(seq!['p', 'i', 't', 'c', 'h'][0] != "cheb5"@[0]); }
    assert(seq!['p', 'i', 't', 'c', 'h'] != "cheb6"@) by { assert(seq!['p', 'i', 't', 'c', 'h'][0] != "cheb6"@[0]); }
    assert(seq!['p', 'i', 't', 'c', 'h'] != "clamp"@) by { assert(seq!['p', 'i', 't', 'c', 'h'][0] != "clamp"@[0]); }
    assert(seq!['p', 'i', 't', 'c', 'h'] != "cycle"@) by { assert(seq!['p', 'i', 't', 'c', 'h'][0] != "cycle"@[0]); }
    assert(seq!['p', 'i', 't', 'c', 'h'] != "biexp"@) by { assert(seq!['p', 'i', 't', 'c', 'h'][0] != "biexp"@[0]); }
    assert(seq!['p', 'i', 't', 'c', 'h'] != "bqbpf"@) by { assert(seq!['p', 'i', 't', 'c', 'h'][0] != "bqbpf"@[0]); }
    assert(seq!['p', 'i', 't', 'c', 'h'] != "bqhpf"@) by { assert(seq!['p', 'i', 't', 'c', 'h'][0] != "bqhpf"@[0]); }
    assert(seq!['p', 'i', 't', 'c', 'h'] != "input"@) by { assert(seq!['p', 'i', 't', 'c', 'h'][0] != "input"@[0]); }
    assert(seq!['p', 'i', 't', 'c', 'h'] != "bqlpf"@) by { assert(seq!['p', 'i', 't', 'c', 'h'][0] != "bqlpf"@[0]); }
    assert(seq!['p', 'i', 't', 'c', 'h'] != "metro"@) by { assert(seq!['p', 'i', 't', 'c', 'h'][0] != "metro"@[0]); }
    assert(seq!['p', 'i', 't', 'c', 'h'] != "noise"@) by { assert(seq!['p', 'i', 't', 'c', 'h'][0] != "noise"@[0]); }
    assert(seq!['p', 'i', 't', 'c', 'h'] != "notch"@) by { assert(seq!['p', 'i', 't', 'c', 'h'][0] != "notch"@[0]); }
    assert(spec_named_op(seq!['p', 'i', 't', 'c', 'h']) == Some(NamedOp::Pitch));
    assert(seq!['p', 'o', 'p'] =~= "pop"@);
    assert(seq!['p', 'o', 'p'] != "mul"@) by { assert(seq!['p', 'o', 'p'][0] != "mul"@[0]); }
    assert(seq!['p', 'o', 'p'] != "add"@) by { assert(seq!['p', 'o', 'p'][0] != "add"@[0]); }
    assert(seq!['p', 'o', 'p'] != "sub"@) by { assert(seq!['p', 'o', 'p'][0] != "sub"@[0]); }
    assert(seq!['p', 'o', 'p'] != "div"@) by { assert(seq!['p', 'o', 'p'][0] != "div"@[0]); }
    assert(seq!['p', 'o', 'p'] != "pow"@) by { assert(seq!['p', 'o', 'p'][2] != "pow"@[2]); }
    assert(seq!['p', 'o', 'p'] != "mod"@) by { assert(seq!['p', 'o', 'p'][0] != "mod"@[0]); }
    assert(seq!['p', 'o', 'p'] != "cos"@) by { assert(seq!['p', 'o', 'p'][0] != "cos"@[0]); }
    assert(seq!['p', 'o', 'p'] != "dmh"@) by { assert(seq!['p', 'o', 'p'][0] != "dmh"@[0]); }
    assert(seq!['p', 'o', 'p'] != "dup"@) by { assert(seq!['p', 'o', 'p'][0] != "dup"@[0]); }
    assert(seq!['p', 'o', 'p'] != "exp"@) by { assert(seq!['p', 'o', 'p'][0] != "exp"@[0]); }
    assert(seq!['p', 'o', 'p'] != "f2m"@) by { assert(seq!['p', 'o', 'p'][0] != "f2m"@[0]); }
    assert(seq!['p', 'o', 'p'] != "hpf"@) by { assert(seq!['p', 'o', 'p'][0] != "hpf"@[0]); }
    assert(seq!['p', 'o', 'p'] != "lpf"@) by { assert(seq!['p', 'o', 'p'][0] != "lpf"@[0]); }
    assert(seq!['p', 'o', 'p'] != "m2f"@) by { assert(seq!['p', 'o', 'p'][0] != "m2f"@[0]); }
    assert(seq!['p', 'o', 'p'] != "max"@) by { assert(seq!['p', 'o', 'p'][0] != "max"@[0]); }
    assert(seq!['p', 'o', 'p'] != "min"@) by { assert(seq!['p', 'o', 'p'][0] != "min"@[0]); }
    assert(seq!['p', 'o', 'p'] != "tau"@) by { assert(seq!['p', 'o', 'p'][0] != "tau"@[0]); }
    assert(spec_named_op(seq!['p', 'o', 'p']) == Some(NamedOp::Pop));
    assert(seq!['p', 'r', 'i', 'm', 'e'] =~= "prime"@);
    assert(seq!['p', 'r', 'i', 'm', 'e'] != "cheb2"@) by { assert(seq!['p', 'r', 'i', 'm', 'e'][0] != "cheb2"@[0]); }
    assert(seq!['p', 'r', 'i', 'm', 'e'] != "cheb3"@) by { assert(seq!['p', 'r', 'i', 'm', 'e'][0] != "cheb3"@[0]); }
    assert(seq!['p', 'r', 'i', 'm', 'e'] != "cheb4"@) by { assert(seq!['p', 'r', 'i', 'm', 'e'][0] != "cheb4"@[0]); }
    assert(seq!['p', 'r', 'i', 'm', 'e'] != "cheb5"@) by { assert(seq!['p', 'r', 'i', 'm', 'e'][0] != "cheb5"@[0]); }
    assert(seq!['p', 'r', 'i', 'm', 'e'] != "cheb6"@) by { assert(seq!['p', 'r', 'i', 'm', 'e'][0] != "cheb6"@[0]); }
    assert(seq!['p', 'r', 'i', 'm', 'e'] != "clamp"@) by { assert(seq!['p', 'r', 'i', 'm', 'e'][0] != "clamp"@[0]); }
    assert(seq!['p', 'r', 'i', 'm', 'e'] != "cycle"@) by { assert(seq!['p', 'r', 'i', 'm', 'e'][0] != "cycle"@[0]); }
    assert(seq!['p', 'r', 'i', 'm', 'e'] != "biexp"@) by { assert(seq!['p', 'r', 'i', 'm', 'e'][0] != "biexp"@[0]); }
    assert(seq!['p', 'r', 'i', 'm', 'e'] != "bqbpf"@) by { assert(seq!['p', 'r', 'i', 'm', 'e'][0] != "bqbpf"@[0]); }
    assert(seq!['p', 'r', 'i', 'm', 'e'] != "bqhpf"@) by { assert(seq!['p', 'r', 'i', 'm', 'e'][0] != "bqhpf"@[0]); }
    assert(seq!['p', 'r', 'i', 'm', 'e'] != "input"@) by { assert(seq!['p', 'r', 'i', 'm', 'e'][0] != "input"@[0]); }
    assert(seq!['p', 'r', 'i', 'm', 'e'] != "bqlpf"@) by { assert(seq!['p', 'r', 'i', 'm', 'e'][0] != "bqlpf"@[0]); }
    assert(seq!['p', 'r', 'i', 'm', 'e'] != "metro"@) by { assert(seq!['p', 'r', 'i', 'm', 'e'][0] != "metro"@[0]); }
    assert(seq!['p', 'r', 'i', 'm', 'e'] != "noise"@) by { assert(seq!['p', 'r', 'i', 'm', 'e'][0] != "noise"@[0]); }
    assert(seq!['p', 'r', 'i', 'm', 'e'] != "notch"@) by { assert(seq!['p', 'r', 'i', 'm', 'e'][0] != "notch"@[0]); }
    assert(seq!['p', 'r', 'i', 'm', 'e'] != "pitch"@) by { assert(seq!['p', 'r', 'i', 'm', 'e'][1] != "pitch"@[1]); }
    assert(spec_named_op(seq!['p', 'r', 'i', 'm', 'e']) == Some(NamedOp::Prime));
    assert(seq!['p', 'u', 'l', 's', 'e'] =~= "pulse"@);
    assert(seq!['p', 'u', 'l', 's', 'e'] != "cheb2"@) by { assert(seq!['p', 'u', 'l', 's', 'e'][0] != "cheb2"@[0]); }
    assert(seq!['p', 'u', 'l', 's', 'e'] != "cheb3"@) by { assert(seq!['p', 'u', 'l', 's', 'e'][0] != "cheb3"@[0]); }
    assert(seq!['p', 'u', 'l', 's', 'e'] != "cheb4"@) by { assert(seq!['p', 'u', 'l', 's', 'e'][0] != "cheb4"@[0]); }
    assert(seq!['p', 'u', 'l', 's', 'e'] != "cheb5"@) by { assert(seq!['p', 'u', 'l', 's', 'e'][0] != "cheb5"@[0]); }
    assert(seq!['p', 'u', 'l', 's', 'e'] != "cheb6"@) by { assert(seq!['p', 'u', 'l', 's', 'e'][0] != "cheb6"@[0]); }
    assert(seq!['p', 'u', 'l', 's', 'e'] != "clamp"@) by { assert(seq!['p', 'u', 'l', 's', 'e'][0] != "clamp"@[0]); }
    assert(seq!['p', 'u', 'l', 's', 'e'] != "cycle"@) by { assert(seq!['p', 'u', 'l', 's', 'e'][0] != "cycle"@[0]); }
    assert(seq!['p', 'u', 'l', 's', 'e'] != "biexp"@) by { assert(seq!['p', 'u', 'l', 's', 'e'][0] != "biexp"@[0]); }
    assert(seq!['p', 'u', 'l', 's', 'e'] != "bqbpf"@) by { assert(seq!['p', 'u', 'l', 's', 'e'][0] != "bqbpf"@[0]); }
    assert(seq!['p', 'u', 'l', 's', 'e'] != "bqhpf"@) by { assert(seq!['p', 'u', 'l', 's', 'e'][0] != "bqhpf"@[0]); }
    assert(seq!['p', 'u', 'l', 's', 'e'] != "input"@) by { assert(seq!['p', 'u', 'l', 's', 'e'][0] != "input"@[0]); }
    assert(seq!['p', 'u', 'l', 's', 'e'] != "bqlpf"@) by { assert(seq!['p', 'u', 'l', 's', 'e'][0] != "bqlpf"@[0]); }
    assert(seq!['p', 'u', 'l', 's', 'e'] != "metro"@) by { assert(seq!['p', 'u', 'l', 's', 'e'][0] != "metro"@[0]); }
    assert(seq!['p', 'u', 'l', 's', 'e'] != "noise"@) by { assert(seq!['p', 'u', 'l', 's', 'e'][0] != "noise"@[0]); }
    assert(seq!['p', 'u', 'l', 's', 'e'] != "notch"@) by { assert(seq!['p', 'u', 'l', 's', 'e'][0] != "notch"@[0]); }
    assert(seq!['p', 'u', 'l', 's', 'e'] != "pitch"@) by { assert(seq!['p', 'u', 'l', 's', 'e'][1] != "pitch"@[1]); }
    assert(seq!['p', 'u', 'l', 's', 'e'] != "prime"@) by { assert(seq!['p', 'u', 'l', 's', 'e'][1] != "prime"@[1]); }
    assert(spec_named_op(seq!['p', 'u', 'l', 's', 'e']) == Some(NamedOp::Pulse));
    assert(seq!['q'] =~= "q"@);
    assert(seq!['q'] != "*"@) by { assert(seq!['q'][0] != "*"@[0]); }
    assert(seq!['q'] != "+"@) by { assert(seq!['q'][0] != "+"@[0]); }
    assert(seq!['q'] != "-"@) by { assert(seq!['q'][0] != "-"@[0]); }
    assert(seq!['q'] != "/"@) by { assert(seq!['q'][0] != "/"@[0]); }
    assert(seq!['q'] != "\\"@) by { assert(seq!['q'][0] != "\\"@[0]); }
    assert(seq!['q'] != "^"@) by { assert(seq!['q'][0] != "^"@[0]); }
    assert(seq!['q'] != "%"@) by { assert(seq!['q'][0] != "%"@[0]); }
    assert(seq!['q'] != "c"@) by { assert(seq!['q'][0] != "c"@[0]); }
    assert(seq!['q'] != "h"@) by { assert(seq!['q'][0] != "h"@[0]); }
    assert(seq!['q'] != "l"@) by { assert(seq!['q'][0] != "l"@[0]); }
    assert(seq!['q'] != "m"@) by { assert(seq!['q'][0] != "m"@[0]); }
    assert(seq!['q'] != "#"@) by { assert(seq!['q'][0] != "#"@[0]); }
    assert(seq!['q'] != "n"@) by { assert(seq!['q'][0] != "n"@[0]); }
    assert(seq!['q'] != "p"@) by { assert(seq!['q'][0] != "p"@[0]); }
    assert(spec_named_op(seq!['q']) == Some(NamedOp::Quantize));
    assert(seq!['q', 'u', 'a', 'n', 't', 'i', 'z', 'e'] =~= "quantize"@);
    assert(spec_named_op(seq!['q', 'u', 'a', 'n', 't', 'i', 'z', 'e']) == Some(NamedOp::Quantize));
    assert(seq!['r'] =~= "r"@);
    assert(seq!['r'] != "*"@) by { assert(seq!['r'][0] != "*"@[0]); }
    assert(seq!['r'] != "+"@) by { assert(seq!['r'][0] != "+"@[0]); }
    assert(seq!['r'] != "-"@) by { assert(seq!['r'][0] != "-"@[0]); }
    assert(seq!['r'] != "/"@) by { assert(seq!['r'][0] != "/"@[0]); }
    assert(seq!['r'] != "\\"@) by { assert(seq!['r'][0] != "\\"@[0]); }
    assert(seq!['r'] != "^"@) by { assert(seq!['r'][0] != "^"@[0]); }
    assert(seq!['r'] != "%"@) by { assert(seq!['r'][0] != "%"@[0]); }
    assert(seq!['r'] != "c"@) by { assert(seq!['r'][0] != "c"@[0]); }
    assert(seq!['r'] != "h"@) by { assert(seq!['r'][0] != "h"@[0]); }
    assert(seq!['r'] != "l"@) by { assert(seq!['r'][0] != "l"@[0]); }
    assert(seq!['r'] != "m"@) by { assert(seq!['r'][0] != "m"@[0]); }
    assert(seq!['r'] != "#"@) by { assert(seq!['r'][0] != "#"@[0]); }
    assert(seq!['r'] != "n"@) by { assert(seq!['r'][0] != "n"@[0]); }
    assert(seq!['r'] != "p"@) by { assert(seq!['r'][0] != "p"@[0]); }
    assert(seq!['r'] != "q"@) by { assert(seq!['r'][0] != "q"@[0]); }
    assert(spec_named_op(seq!['r']) == Some(NamedOp::Range));
    assert(seq!['r', 'a', 'n', 'g', 'e'] =~= "range"@);
    assert(seq!['r', 'a', 'n', 'g', 'e'] != "cheb2"@) by { assert(seq!['r', 'a', 'n', 'g', 'e'][0] != "cheb2"@[0]); }
    assert(seq!['r', 'a', 'n', 'g', 'e'] != "cheb3"@) by { assert(seq!['r', 'a', 'n', 'g', 'e'][0] != "cheb3"@[0]); }
    assert(seq!['r', 'a', 'n', 'g', 'e'] != "cheb4"@) by { assert(seq!['r', 'a', 'n', 'g', 'e'][0] != "cheb4"@[0]); }
    assert(seq!['r', 'a', 'n', 'g', 'e'] != "cheb5"@) by { assert(seq!['r', 'a', 'n', 'g', 'e'][0] != "cheb5"@[0]); }
    assert(seq!['r', 'a', 'n', 'g', 'e'] != "cheb6"@) by { assert(seq!['r', 'a', 'n', 'g', 'e'][0] != "cheb6"@[0]); }
    assert(seq!['r', 'a', 'n', 'g', 'e'] != "clamp"@) by { assert(seq!['r', 'a', 'n', 'g', 'e'][0] != "clamp"@[0]); }
    assert(seq!['r', 'a', 'n', 'g', 'e'] != "cycle"@) by { assert(seq!['r', 'a', 'n', 'g', 'e'][0] != "cycle"@[0]); }
    assert(seq!['r', 'a', 'n', 'g', 'e'] != "biexp"@) by { assert(seq!['r', 'a', 'n', 'g', 'e'][0] != "biexp"@[0]); }
    assert(seq!['r', 'a', 'n', 'g', 'e'] != "bqbpf"@) by { assert(seq!['r', 'a', 'n', 'g', 'e'][0] != "bqbpf"@[0]); }
    assert(seq!['r', 'a', 'n', 'g', 'e'] != "bqhpf"@) by { assert(seq!['r', 'a', 'n', 'g', 'e'][0] != "bqhpf"@[0]); }
    assert(seq!['r', 'a', 'n', 'g', 'e'] != "input"@) by { assert(seq!['r', 'a', 'n', 'g', 'e'][0] != "input"@[0]); }
    assert(seq!['r', 'a', 'n', 'g', 'e'] != "bqlpf"@) by { assert(seq!['r', 'a', 'n', 'g', 'e'][0] != "bqlpf"@[0]); }
    assert(seq!['r', 'a', 'n', 'g', 'e'] != "metro"@) by { assert(seq!['r', 'a', 'n', 'g', 'e'][0] != "metro"@[0]); }
    assert(seq!['r', 'a', 'n', 'g', 'e'] != "noise"@) by { assert(seq!['r', 'a', 'n', 'g', 'e'][0] != "noise"@[0]); }
    assert(seq!['r', 'a', 'n', 'g', 'e'] != "notch"@) by { assert(seq!['r', 'a', 'n', 'g', 'e'][0] != "notch"@[0]); }
    assert(seq!['r', 'a', 'n', 'g', 'e'] != "pitch"@) by { assert(seq!['r', 'a', 'n', 'g', 'e'][0] != "pitch"@[0]); }
    assert(seq!['r', 'a', 'n', 'g', 'e'] != "prime"@) by { assert(seq!['r', 'a', 'n', 'g', 'e'][0] != "prime"@[0]); }
    assert(seq!['r', 'a', 'n', 'g', 'e'] != "pulse"@) by { assert(seq!['r', 'a', 'n', 'g', 'e'][0] != "pulse"@[0]); }
    assert(spec_named_op(seq!['r', 'a', 'n', 'g', 'e']) == Some(NamedOp::Range));
    assert(seq!['r', 'o', 't'] =~= "rot"@);
    assert(seq!['r', 'o', 't'] != "mul"@) by { assert(seq!['r', 'o', 't'][0] != "mul"@[0]); }
    assert(seq!['r', 'o', 't'] != "add"@) by { assert(seq!['r', 'o', 't'][0] != "add"@[0]); }
    assert(seq!['r', 'o', 't'] != "sub"@) by { assert(seq!['r', 'o', 't'][0] != "sub"@[0]); }
    assert(seq!['r', 'o', 't'] != "div"@) by { assert(seq!['r', 'o', 't'][0] != "div"@[0]); }
    assert(seq!['r', 'o', 't'] != "pow"@) by { assert(seq!['r', 'o', 't'][0] != "pow"@[0]); }
    assert(seq!['r', 'o', 't'] != "mod"@) by { assert(seq!['r', 'o', 't'][0] != "mod"@[0]); }
    assert(seq!['r', 'o', 't'] != "cos"@) by { assert(seq!['r', 'o', 't'][0] != "cos"@[0]); }
    assert(seq!['r', 'o', 't'] != "dmh"@) by { assert(seq!['r', 'o', 't'][0] != "dmh"@[0]); }
    assert(seq!['r', 'o', 't'] != "dup"@) by { assert(seq!['r', 'o', 't'][0] != "dup"@[0]); }
    assert(seq!['r', 'o', 't'] != "exp"@) by { assert(seq!['r', 'o', 't'][0] != "exp"@[0]); }
    assert(seq!['r', 'o', 't'] != "f2m"@) by { assert(seq!['r', 'o', 't'][0] != "f2m"@[0]); }
    assert(seq!['r', 'o', 't'] != "hpf"@) by { assert(seq!['r', 'o', 't'][0] != "hpf"@[0]); }
    assert(seq!['r', 'o', 't'] != "lpf"@) by { assert(seq!['r', 'o', 't'][0] != "lpf"@[0]); }
    assert(seq!['r', 'o', 't'] != "m2f"@) by { assert(seq!['r', 'o', 't'][0] != "m2f"@[0]); }
    assert(seq!['r', 'o', 't'] != "max"@) by { assert(seq!['r', 'o', 't'][0] != "max"@[0]); }
    assert(seq!['r', 'o', 't'] != "min"@) by { assert(seq!['r', 'o', 't'][0] != "min"@[0]); }
    assert(seq!['r', 'o', 't'] != "tau"@) by { assert(seq!['r', 'o', 't'][0] != "tau"@[0]); }
    assert(seq!['r', 'o', 't'] != "pop"@) by { assert(seq!['r', 'o', 't'][0] != "pop"@[0]); }
    assert(spec_named_op(seq!['r', 'o', 't']) == Some(NamedOp::Rot));
    assert(seq!['r', 'o', 'u', 'n', 'd'] =~= "round"@);
    assert(seq!['r', 'o', 'u', 'n', 'd'] != "cheb2"@) by { assert(seq!['r', 'o', 'u', 'n', 'd'][0] != "cheb2"@[0]); }
    assert(seq!['r', 'o', 'u', 'n', 'd'] != "cheb3"@) by { assert(seq!['r', 'o', 'u', 'n', 'd'][0] != "cheb3"@[0]); }
    assert(seq!['r', 'o', 'u', 'n', 'd'] != "cheb4"@) by { assert(seq!['r', 'o', 'u', 'n', 'd'][0] != "cheb4"@[0]); }
    assert(seq!['r', 'o', 'u', 'n', 'd'] != "cheb5"@) by { assert(seq!['r', 'o', 'u', 'n', 'd'][0] != "cheb5"@[0]); }
    assert(seq!['r', 'o', 'u', 'n', 'd'] != "cheb6"@) by { assert(seq!['r', 'o', 'u', 'n', 'd'][0] != "cheb6"@[0]); }
    assert(seq!['r', 'o', 'u', 'n', 'd'] != "clamp"@) by { assert(seq!['r', 'o', 'u', 'n', 'd'][0] != "clamp"@[0]); }
    assert(seq!['r', 'o', 'u', 'n', 'd'] != "cycle"@) by { assert(seq!['r', 'o', 'u', 'n', 'd'][0] != "cycle"@[0]); }
    assert(seq!['r', 'o', 'u', 'n', 'd'] != "biexp"@) by { assert(seq!['r', 'o', 'u', 'n', 'd'][0] != "biexp"@[0]); }
    assert(seq!['r', 'o', 'u', 'n', 'd'] != "bqbpf"@) by { assert(seq!['r', 'o', 'u', 'n', 'd'][0] != "bqbpf"@[0]); }
    assert(seq!['r', 'o', 'u', 'n', 'd'] != "bqhpf"@) by { assert(seq!['r', 'o', 'u', 'n', 'd'][0] != "bqhpf"@[0]); }
    assert(seq!['r', 'o', 'u', 'n', 'd'] != "input"@) by { assert(seq!['r', 'o', 'u', 'n', 'd'][0] != "input"@[0]); }
    assert(seq!['r', 'o', 'u', 'n', 'd'] != "bqlpf"@) by { assert(seq!['r', 'o', 'u', 'n', 'd'][0] != "bqlpf"@[0]); }
    assert(seq!['r', 'o', 'u', 'n', 'd'] != "metro"@) by { assert(seq!['r', 'o', 'u', 'n', 'd'][0] != "metro"@[0]); }
    assert(seq!['r', 'o', 'u', 'n', 'd'] != "noise"@) by { assert(seq!['r', 'o', 'u', 'n', 'd'][0] != "noise"@[0]); }
    assert(seq!['r', 'o', 'u', 'n', 'd'] != "notch"@) by { assert(seq!['r', 'o', 'u', 'n', 'd'][0] != "notch"@[0]); }
    assert(seq!['r', 'o', 'u', 'n', 'd'] != "pitch"@) by { assert(seq!['r', 'o', 'u', 'n', 'd'][0] != "pitch"@[0]); }
    assert(seq!['r', 'o', 'u', 'n', 'd'] != "prime"@) by { assert(seq!['r', 'o', 'u', 'n', 'd'][0] != "prime"@[0]); }
    assert(seq!['r', 'o', 'u', 'n', 'd'] != "pulse"@) by { assert(seq!['r', 'o', 'u', 'n', 'd'][0] != "pulse"@[0]); }
    assert(seq!['r', 'o', 'u', 'n', 'd'] != "range"@) by { assert(seq!['r', 'o', 'u', 'n', 'd'][1] != "range"@[1]); }
    assert(spec_named_op(seq!['r', 'o', 'u', 'n', 'd']) == Some(NamedOp::Round));
    assert forall|i: int| 0 <= i < op_words(NamedOp::Pitch).len() implies spec_named_op(#[trigger] op_words(NamedOp::Pitch)[i]) == Some(NamedOp::Pitch) by {}
    assert forall|i: int| 0 <= i < op_words(NamedOp::Pop).len() implies spec_named_op(#[trigger] op_words(NamedOp::Pop)[i]) == Some(NamedOp::Pop) by {}
    assert forall|i: int| 0 <= i < op_words(NamedOp::Prime).len() implies spec_named_op(#[trigger] op_words(NamedOp::Prime)[i]) == Some(NamedOp::Prime) by {}
    assert forall|i: int| 0 <= i < op_words(NamedOp::Pulse).len() implies spec_named_op(#[trigger] op_words(NamedOp::Pulse)[i]) == Some(NamedOp::Pulse) by {}
    assert forall|i: int| 0 <= i < op_words(NamedOp::Quantize).len() implies spec_named_op(#[trigger] op_words(NamedOp::Quantize)[i]) == Some(NamedOp::Quantize) by {}
    assert forall|i: int| 0 <= i < op_words(NamedOp::Range).len() implies spec_named_op(#[trigger] op_words(NamedOp::Range)[i]) == Some(NamedOp::Range) by {}
    assert forall|i: int| 0 <= i < op_words(NamedOp::Rot).len() implies spec_named_op(#[trigger] op_words(NamedOp::Rot)[i]) == Some(NamedOp::Rot) by {}
    assert forall|i: int| 0 <= i < op_words(NamedOp::Round).len() implies spec_named_op(#[trigger] op_words(NamedOp::Round)[i]) == Some(NamedOp::Round) by {}
}

#[verifier::rlimit(50)]
proof fn lemma_listed_words_part8()
    ensures
        forall|i: int| 0 <= i < op_words(NamedOp::SineOsc).len() ==> spec_named_op(#[trigger] op_words(NamedOp::SineOsc)[i]) == Some(NamedOp::SineOsc),
        forall|i: int| 0 <= i < op_words(NamedOp::SineOscFast).len() ==> spec_named_op(#[trigger] op_words(NamedOp::SineOscFast)[i]) == Some(NamedOp::SineOscFast),
        forall|i: int| 0 <= i < op_words(NamedOp::Saw).len() ==> spec_named_op(#[trigger] op_words(NamedOp::Saw)[i]) == Some(NamedOp::Saw),
        forall|i: int| 0 <= i < op_words(NamedOp::SampleAndHold).len() ==> spec_named_op(#[trigger] op_words(NamedOp::SampleAndHold)[i]) == Some(NamedOp::SampleAndHold),
        forall|i: int| 0 <= i < op_words(NamedOp::Ssh).len() ==> spec_named_op(#[trigger] op_words(NamedOp::Ssh)[i]) == Some(NamedOp::Ssh),
        forall|i: int| 0 <= i < op_words(NamedOp::Silence).len() ==> spec_named_op(#[trigger] op_words(NamedOp::Silence)[i]) == Some(NamedOp::Silence),
        forall|i: int| 0 <= i < op_words(NamedOp::Sin).len() ==> spec_named_op(#[trigger] op_words(NamedOp::Sin)[i]) == Some(NamedOp::Sin),
        forall|i: int| 0 <= i < op_words(NamedOp::SinFast).len() ==> spec_named_op(#[trigger] op_words(NamedOp::SinFast)[i]) == Some(NamedOp::SinFast),
{
    reveal_strlit("*");
    reveal_strlit("mul");
    reveal_strlit("+");
    reveal_strlit("add");
    reveal_strlit("-");
    reveal_strlit("sub");
    reveal_strlit("/");
    reveal_strlit("div");
    reveal_strlit("\\");
    reveal_strlit("^");
    reveal_strlit("pow");
    reveal_strlit("%");
    reveal_strlit("mod");
    reveal_strlit("adsr");
    reveal_strlit("amp2db");
    reveal_strlit("a2db");
    reveal_strlit("c");
    reveal_strlit("c'");
    reveal_strlit("cheb2");
    reveal_strlit("cheb3");
    reveal_strlit("cheb4");
    reveal_strlit("cheb5");
    reveal_strlit("cheb6");
    reveal_strlit("circle");
    reveal_strlit("clamp");
    reveal_strlit("clip");
    reveal_strlit("cos");
    reveal_strlit("cos'");
    reveal_strlit("cosh");
    reveal_strlit("cosine");
    reveal_strlit("cosine'");
    reveal_strlit("cycle");
    reveal_strlit("cy");
    reveal_strlit("db2amp");
    reveal_strlit("db2a");
    reveal_strlit("dm");
    reveal_strlit("dmetro");
    reveal_strlit("dmh");
    reveal_strlit("dmetro_hold");
    reveal_strlit("dup");
    reveal_strlit("exp");
    reveal_strlit("biexp");
    reveal_strlit("expexp");
    reveal_strlit("explin");
    reveal_strlit("f2m");
    reveal_strlit("freq2midi");
    reveal_strlit("bp");
    reveal_strlit("bqbpf");
    reveal_strlit("h");
    reveal_strlit("bqhpf");
    reveal_strlit("hpf");
    reveal_strlit("impulse");
    reveal_strlit("in");
    reveal_strlit("input");
    reveal_strlit("l");
    reveal_strlit("bqlpf");
    reveal_strlit("linexp");
    reveal_strlit("linlin");
    reveal_strlit("project");
    reveal_strlit("lpf");
    reveal_strlit("m");
    reveal_strlit("metro");
    reveal_strlit("m2f");
    reveal_strlit("midi2freq");
    reveal_strlit("#");
    reveal_strlit("max");
    reveal_strlit("mh");
    reveal_strlit("metro_hold");
    reveal_strlit("min");
    reveal_strlit("n");
    reveal_strlit("noise");
    reveal_strlit("whiteNoise");
    reveal_strlit("notch");
    reveal_strlit("bqnotch");
    reveal_strlit("p");
    reveal_strlit("pan1");
    reveal_strlit("pan2");
    reveal_strlit("panx");
    reveal_strlit("pi");
    reveal_strlit("tau");
    reveal_strlit("pitch");
    reveal_strlit("pop");
    reveal_strlit("prime");
    reveal_strlit("pulse");
    reveal_strlit("q");
    reveal_strlit("quantize");
    reveal_strlit("r");
    reveal_strlit("range");
    reveal_strlit("rot");
    reveal_strlit("round");
    reveal_strlit("s");
    reveal_strlit("s'");
    reveal_strlit("saw");
    reveal_strlit("sh");
    reveal_strlit("sample&hold");
    reveal_strlit("ssh");
    reveal_strlit("silence");
    reveal_strlit("sin");
    reveal_strlit("sin'");
    assert(seq!['s'] =~= "s"@);
    assert(seq!['s'] != "*"@) by { assert(seq!['s'][0] != "*"@[0]); }
    assert(seq!['s'] != "+"@) by { assert(seq!['s'][0] != "+"@[0]); }
    assert(seq!['s'] != "-"@) by { assert(seq!['s'][0] != "-"@[0]); }
    assert(seq!['s'] != "/"@) by { assert(seq!['s'][0] != "/"@[0]); }
    assert(seq!['s'] != "\\"@) by { assert(seq!['s'][0] != "\\"@[0]); }
    assert(seq!['s'] != "^"@) by { assert(seq!['s'][0] != "^"@[0]); }
    assert(seq!['s'] != "%"@) by { assert(seq!['s'][0] != "%"@[0]); }
    assert(seq!['s'] != "c"@) by { assert(seq!['s'][0] != "c"@[0]); }
    assert(seq!['s'] != "h"@) by { assert(seq!['s'][0] != "h"@[0]); }
    assert(seq!['s'] != "l"@) by { assert(seq!['s'][0] != "l"@[0]); }
    assert(seq!['s'] != "m"@) by { assert(seq!['s'][0] != "m"@[0]); }
    assert(seq!['s'] != "#"@) by { assert(seq!['s'][0] != "#"@[0]); }
    assert(seq!['s'] != "n"@) by { assert(seq!['s'][0] != "n"@[0]); }
    assert(seq!['s'] != "p"@) by { assert(seq!['s'][0] != "p"@[0]); }
    assert(seq!['s'] != "q"@) by { assert(seq!['s'][0] != "q"@[0]); }
    assert(seq!['s'] != "r"@) by { assert(seq!['s'][0] != "r"@[0]); }
    assert(spec_named_op(seq!['s']) == Some(NamedOp::SineOsc));
    assert(seq!['s', '\''] =~= "s'"@);
    assert(seq!['s', '\''] != "c'"@) by { assert(seq!['s', '\''][0] != "c'"@[0]); }
    assert(seq!['s', '\''] != "cy"@) by { assert(seq!['s', '\''][0] != "cy"@[0]); }
    assert(seq!['s', '\''] != "dm"@) by { assert(seq!['s', '\''][0] != "dm"@[0]); }
    assert(seq!['s', '\''] != "bp"@) by { assert(seq!['s', '\''][0] != "bp"@[0]); }
    assert(seq!['s', '\''] != "in"@) by { assert(seq!['s', '\''][0] != "in"@[0]); }
    assert(seq!['s', '\''] != "mh"@) by { assert(seq!['s', '\''][0] != "mh"@[0]); }
    assert(seq!['s', '\''] != "pi"@) by { assert(seq!['s', '\''][0] != "pi"@[0]); }
    assert(spec_named_op(seq!['s', '\'']) == Some(NamedOp::SineOscFast));
    assert(seq!['s', 'a', 'w'] =~= "saw"@);
    assert(seq!['s', 'a', 'w'] != "mul"@) by { assert(seq!['s', 'a', 'w'][0] != "mul"@[0]); }
    assert(seq!['s', 'a', 'w'] != "add"@) by { assert(seq!['s', 'a', 'w'][0] != "add"@[0]); }
    assert(seq!['s', 'a', 'w'] != "sub"@) by { assert(seq!['s', 'a', 'w'][1] != "sub"@[1]); }
    assert(seq!['s', 'a', 'w'] != "div"@) by { assert(seq!['s', 'a', 'w'][0] != "div"@[0]); }
    assert(seq!['s', 'a', 'w'] != "pow"@) by { assert(seq!['s', 'a', 'w'][0] != "pow"@[0]); }
    assert(seq!['s', 'a', 'w'] != "mod"@) by { assert(seq!['s', 'a', 'w'][0] != "mod"@[0]); }
    assert(seq!['s', 'a', 'w'] != "cos"@) by { assert(seq!['s', 'a', 'w'][0] != "cos"@[0]); }
    assert(seq!['s', 'a', 'w'] != "dmh"@) by { assert(seq!['s', 'a', 'w'][0] != "dmh"@[0]); }
    assert(seq!['s', 'a', 'w'] != "dup"@) by { assert(seq!['s', 'a', 'w'][0] != "dup"@[0]); }
    assert(seq!['s', 'a', 'w'] != "exp"@) by { assert(seq!['s', 'a', 'w'][0] != "exp"@[0]); }
    assert(seq!['s', 'a', 'w'] != "f2m"@) by { assert(seq!['s', 'a', 'w'][0] != "f2m"@[0]); }
    assert(seq!['s', 'a', 'w'] != "hpf"@) by { assert(seq!['s', 'a', 'w'][0] != "hpf"@[0]); }
    assert(seq!['s', 'a', 'w'] != "lpf"@) by { assert(seq!['s', 'a', 'w'][0] != "lpf"@[0]); }
    assert(seq!['s', 'a', 'w'] != "m2f"@) by { assert(seq!['s', 'a', 'w'][0] != "m2f"@[0]); }
    assert(seq!['s', 'a', 'w'] != "max"@) by { assert(seq!['s', 'a', 'w'][0] != "max"@[0]); }
    assert(seq!['s', 'a', 'w'] != "min"@) by { assert(seq!['s', 'a', 'w'][0] != "min"@[0]); }
    assert(seq!['s', 'a', 'w'] != "tau"@) by { assert(seq!['s', 'a', 'w'][0] != "tau"@[0]); }
    assert(seq!['s', 'a', 'w'] != "pop"@) by { assert(seq!['s', 'a', 'w'][0] != "pop"@[0]); }
    assert(seq!['s', 'a', 'w'] != "rot"@) by { assert(seq!['s', 'a', 'w'][0] != "rot"@[0]); }
    assert(spec_named_op(seq!['s', 'a', 'w']) == Some(NamedOp::Saw));
    assert(seq!['s', 'h'] =~= "sh"@);
    assert(seq!['s', 'h'] != "c'"@) by { assert(seq!['s', 'h'][0] != "c'"@[0]); }
    assert(seq!['s', 'h'] != "cy"@) by { assert(seq!['s', 'h'][0] != "cy"@[0]); }
    assert(seq!['s', 'h'] != "dm"@) by { assert(seq!['s', 'h'][0] != "dm"@[0]); }
    assert(seq!['s', 'h'] != "bp"@) by { assert(seq!['s', 'h'][0] != "bp"@[0]); }
    assert(seq!['s', 'h'] != "in"@) by { assert(seq!['s', 'h'][0] != "in"@[0]); }
    assert(seq!['s', 'h'] != "mh"@) by { assert(seq!['s', 'h'][0] != "mh"@[0]); }
    assert(seq!['s', 'h'] != "pi"@) by { assert(seq!['s', 'h'][0] != "pi"@[0]); }
    assert(seq!['s', 'h'] != "s'"@) by { assert(seq!['s', 'h'][1] != "s'"@[1]); }
    assert(spec_named_op(seq!['s', 'h']) == Some(NamedOp::SampleAndHold));
    assert(seq!['s', 'a', 'm', 'p', 'l', 'e', '&', 'h', 'o', 'l', 'd'] =~= "sample&hold"@);
    assert(seq!['s', 'a', 'm', 'p', 'l', 'e', '&', 'h', 'o', 'l', 'd'] != "dmetro_hold"@) by { assert(seq!['s', 'a', 'm', 'p', 'l', 'e', '&', 'h', 'o', 'l', 'd'][0] != "dmetro_hold"@[0]); }
    assert(spec_named_op(seq!['s', 'a', 'm', 'p', 'l', 'e', '&', 'h', 'o', 'l', 'd']) == Some(NamedOp::SampleAndHold));
    assert(seq!['s', 's', 'h'] =~= "ssh"@);
    assert(seq!['s', 's', 'h'] != "mul"@) by { assert(seq!['s', 's', 'h'][0] != "mul"@[0]); }
    assert(seq!['s', 's', 'h'] != "add"@) by { assert(seq!['s', 's', 'h'][0] != "add"@[0]); }
    assert(seq!['s', 's', 'h'] != "sub"@) by { assert(seq!['s', 's', 'h'][1] != "sub"@[1]); }
    assert(seq!['s', 's', 'h'] != "div"@) by { assert(seq!['s', 's', 'h'][0] != "div"@[0]); }
    assert(seq!['s', 's', 'h'] != "pow"@) by { assert(seq!['s', 's', 'h'][0] != "pow"@[0]); }
    assert(seq!['s', 's', 'h'] != "mod"@) by { assert(seq!['s', 's', 'h'][0] != "mod"@[0]); }
    assert(seq!['s', 's', 'h'] != "cos"@) by { assert(seq!['s', 's', 'h'][0] != "cos"@[0]); }
    assert(seq!['s', 's', 'h'] != "dmh"@) by { assert(seq!['s', 's', 'h'][0] != "dmh"@[0]); }
    assert(seq!['s', 's', 'h'] != "dup"@) by { assert(seq!['s', 's', 'h'][0] != "dup"@[0]); }
    assert(seq!['s', 's', 'h'] != "exp"@) by { assert(seq!['s', 's', 'h'][0] != "exp"@[0]); }
    assert(seq!['s', 's', 'h'] != "f2m"@) by { assert(seq!['s', 's', 'h'][0] != "f2m"@[0]); }
    assert(seq!['s', 's', 'h'] != "hpf"@) by { assert(seq!['s', 's', 'h'][0] != "hpf"@[0]); }
    assert(seq!['s', 's', 'h'] != "lpf"@) by { assert(seq!['s', 's', 'h'][0] != "lpf"@[0]); }
    assert(seq!['s', 's', 'h'] != "m2f"@) by { assert(seq!['s', 's', 'h'][0] != "m2f"@[0]); }
    assert(seq!['s', 's', 'h'] != "max"@) by { assert(seq!['s', 's', 'h'][0] != "max"@[0]); }
    assert(seq!['s', 's', 'h'] != "min"@) by { assert(seq!['s', 's', 'h'][0] != "min"@[0]); }
    assert(seq!['s', 's', 'h'] != "tau"@) by { assert(seq!['s', 's', 'h'][0] != "tau"@[0]); }
    assert(seq!['s', 's', 'h'] != "pop"@) by { assert(seq!['s', 's', 'h'][0] != "pop"@[0]); }
    assert(seq!['s', 's', 'h'] != "rot"@) by { assert(seq!['s', 's', 'h'][0] != "rot"@[0]); }
    assert(seq!['s', 's', 'h'] != "saw"@) by { assert(seq!['s', 's', 'h'][1] != "saw"@[1]); }
    assert(spec_named_op(seq!['s', 's', 'h']) == Some(NamedOp::Ssh));
    assert(seq!['s', 'i', 'l', 'e', 'n', 'c', 'e'] =~= "silence"@);
    assert(seq!['s', 'i', 'l', 'e', 'n', 'c', 'e'] != "cosine'"@) by { assert(seq!['s', 'i', 'l', 'e', 'n', 'c', 'e'][0] != "cosine'"@[0]); }
    assert(seq!['s', 'i', 'l', 'e', 'n', 'c', 'e'] != "impulse"@) by { assert(seq!['s', 'i', 'l', 'e', 'n', 'c', 'e'][0] != "impulse"@[0]); }
    assert(seq!['s', 'i', 'l', 'e', 'n', 'c', 'e'] != "project"@) by { assert(seq!['s', 'i', 'l', 'e', 'n', 'c', 'e'][0] != "project"@[0]); }
    assert(seq!['s', 'i', 'l', 'e', 'n', 'c', 'e'] != "bqnotch"@) by { assert(seq!['s', 'i', 'l', 'e', 'n', 'c', 'e'][0] != "bqnotch"@[0]); }
    assert(spec_named_op(seq!['s', 'i', 'l', 'e', 'n', 'c', 'e']) == Some(NamedOp::Silence));
    assert(seq!['s', 'i', 'n'] =~= "sin"@);
    assert(seq!['s', 'i', 'n'] != "mul"@) by { assert(seq!['s', 'i', 'n'][0] != "mul"@[0]); }
    assert(seq!['s', 'i', 'n'] != "add"@) by { assert(seq!['s', 'i', 'n'][0] != "add"@[0]); }
    assert(seq!['s', 'i', 'n'] != "sub"@) by { assert(seq!['s', 'i', 'n'][1] != "sub"@[1]); }
    assert(seq!['s', 'i', 'n'] != "div"@) by { assert(seq!['s', 'i', 'n'][0] != "div"@[0]); }
    assert(seq!['s', 'i', 'n'] != "pow"@) by { assert(seq!['s', 'i', 'n'][0] != "pow"@[0]); }
    assert(seq!['s', 'i', 'n'] != "mod"@) by { assert(seq!['s', 'i', 'n'][0] != "mod"@[0]); }
    assert(seq!['s', 'i', 'n'] != "cos"@) by { assert(seq!['s', 'i', 'n'][0] != "cos"@[0]); }
    assert(seq!['s', 'i', 'n'] != "dmh"@) by { assert(seq!['s', 'i', 'n'][0] != "dmh"@[0]); }
    assert(seq!['s', 'i', 'n'] != "dup"@) by { assert(seq!['s', 'i', 'n'][0] != "dup"@[0]); }
    assert(seq!['s', 'i', 'n'] != "exp"@) by { assert(seq!['s', 'i', 'n'][0] != "exp"@[0]); }
    assert(seq!['s', 'i', 'n'] != "f2m"@) by { assert(seq!['s', 'i', 'n'][0] != "f2m"@[0]); }
    assert(seq!['s', 'i', 'n'] != "hpf"@) by { assert(seq!['s', 'i', 'n'][0] != "hpf"@[0]); }
    assert(seq!['s', 'i', 'n'] != "lpf"@) by { assert(seq!['s', 'i', 'n'][0] != "lpf"@[0]); }
    assert(seq!['s', 'i', 'n'] != "m2f"@) by { assert(seq!['s', 'i', 'n'][0] != "m2f"@[0]); }
    assert(seq!['s', 'i', 'n'] != "max"@) by { assert(seq!['s', 'i', 'n'][0] != "max"@[0]); }
    assert(seq!['s', 'i', 'n'] != "min"@) by { assert(seq!['s', 'i', 'n'][0] != "min"@[0]); }
    assert(seq!['s', 'i', 'n'] != "tau"@) by { assert(seq!['s', 'i', 'n'][0] != "tau"@[0]); }
    assert(seq!['s', 'i', 'n'] != "pop"@) by { assert(seq!['s', 'i', 'n'][0] != "pop"@[0]); }
    assert(seq!['s', 'i', 'n'] != "rot"@) by { assert(seq!['s', 'i', 'n'][0] != "rot"@[0]); }
    assert(seq!['s', 'i', 'n'] != "saw"@) by { assert(seq!['s', 'i', 'n'][1] != "saw"@[1]); }
    assert(seq!['s', 'i', 'n'] != "ssh"@) by { assert(seq!['s', 'i', 'n'][1] != "ssh"@[1]); }
    assert(spec_named_op(seq!['s', 'i', 'n']) == Some(NamedOp::Sin));
    assert(seq!['s', 'i', 'n', '\''] =~= "sin'"@);
    assert(seq!['s', 'i', 'n', '\''] != "adsr"@) by { assert(seq!['s', 'i', 'n', '\''][0] != "adsr"@[0]); }
    assert(seq!['s', 'i', 'n', '\''] != "a2db"@) by { assert(seq!['s', 'i', 'n', '\''][0] != "a2db"@[0]); }
    assert(seq!['s', 'i', 'n', '\''] != "clip"@) by { assert(seq!['s', 'i', 'n', '\''][0] != "clip"@[0]); }
    assert(seq!['s', 'i', 'n', '\''] != "cos'"@) by { assert(seq!['s', 'i', 'n', '\''][0] != "cos'"@[0]); }
    assert(seq!['s', 'i', 'n', '\''] != "cosh"@) by { assert(seq!['s', 'i', 'n', '\''][0] != "cosh"@[0]); }
    assert(seq!['s', 'i', 'n', '\''] != "db2a"@) by { assert(seq!['s', 'i', 'n', '\''][0] != "db2a"@[0]); }
    assert(seq!['s', 'i', 'n', '\''] != "pan1"@) by { assert(seq!['s', 'i', 'n', '\''][0] != "pan1"@[0]); }
    assert(seq!['s', 'i', 'n', '\''] != "pan2"@) by { assert(seq!['s', 'i', 'n', '\''][0] != "pan2"@[0]); }
    assert(seq!['s', 'i', 'n', '\''] != "panx"@) by { assert(seq!['s', 'i', 'n', '\''][0] != "panx"@[0]); }
    assert(spec_named_op(seq!['s', 'i', 'n', '\'']) == Some(NamedOp::SinFast));
    assert forall|i: int| 0 <= i < op_words(NamedOp::SineOsc).len() implies spec_named_op(#[trigger] op_words(NamedOp::SineOsc)[i]) == Some(NamedOp::SineOsc) by {}
    assert forall|i: int| 0 <= i < op_words(NamedOp::SineOscFast).len() implies spec_named_op(#[trigger] op_words(NamedOp::SineOscFast)[i]) == Some(NamedOp::SineOscFast) by {}
    assert forall|i: int| 0 <= i < op_words(NamedOp::Saw).len() implies spec_named_op(#[trigger] op_words(NamedOp::Saw)[i]) == Some(NamedOp::Saw) by {}
    assert forall|i: int| 0 <= i < op_words(NamedOp::SampleAndHold).len() implies spec_named_op(#[trigger] op_words(NamedOp::SampleAndHold)[i]) == Some(NamedOp::SampleAndHold) by {}
    assert forall|i: int| 0 <= i < op_words(NamedOp::Ssh).len() implies spec_named_op(#[trigger] op_words(NamedOp::Ssh)[i]) == Some(NamedOp::Ssh) by {}
    assert forall|i: int| 0 <= i < op_words(NamedOp::Silence).len() implies spec_named_op(#[trigger] op_words(NamedOp::Silence)[i]) == Some(NamedOp::Silence) by {}
    assert forall|i: int| 0 <= i < op_words(NamedOp::Sin).len() implies spec_named_op(#[trigger] op_words(NamedOp::Sin)[i]) == Some(NamedOp::Sin) by {}
    assert forall|i: int| 0 <= i < op_words(NamedOp::SinFast).len() implies spec_named_op(#[trigger] op_words(NamedOp::SinFast)[i]) == Some(NamedOp::SinFast) by {}
}

#[verifier::rlimit(50)]
proof fn lemma_listed_words_part9()
    ensures
        forall|i: int| 0 <= i < op_words(NamedOp::Sinc).len() ==> spec_named_op(#[trigger] op_words(NamedOp::Sinc)[i]) == Some(NamedOp::Sinc),
        forall|i: int| 0 <= i < op_words(NamedOp::SincFast).len() ==> spec_named_op(#[trigger] op_words(NamedOp::SincFast)[i]) == Some(NamedOp::SincFast),
        forall|i: int| 0 <= i < op_words(NamedOp::Sine).len() ==> spec_named_op(#[trigger] op_words(NamedOp::Sine)[i]) == Some(NamedOp::Sine),
        forall|i: int| 0 <= i < op_words(NamedOp::SineFast).len() ==> spec_named_op(#[trigger] op_words(NamedOp::SineFast)[i]) == Some(NamedOp::SineFast),
        forall|i: int| 0 <= i < op_words(NamedOp::Sinh).len() ==> spec_named_op(#[trigger] op_words(NamedOp::Sinh)[i]) == Some(NamedOp::Sinh),
        forall|i: int| 0 <= i < op_words(NamedOp::SpectralShuffle).len() ==> spec_named_op(#[trigger] op_words(NamedOp::SpectralShuffle)[i]) == Some(NamedOp::SpectralShuffle),
        forall|i: int| 0 <= i < op_words(NamedOp::St1).len() ==> spec_named_op(#[trigger] op_words(NamedOp::St1)[i]) == Some(NamedOp::St1),
        forall|i: int| 0 <= i < op_words(NamedOp::SpectralReverse).len() ==> spec_named_op(#[trigger] op_words(NamedOp::SpectralReverse)[i]) == Some(NamedOp::SpectralReverse),
{
    reveal_strlit("*");
    reveal_strlit("mul");
    reveal_strlit("+");
    reveal_strlit("add");
    reveal_strlit("-");
    reveal_strlit("sub");
    reveal_strlit("/");
    reveal_strlit("div");
    reveal_strlit("\\");
    reveal_strlit("^");
    reveal_strlit("pow");
    reveal_strlit("%");
    reveal_strlit("mod");
    reveal_strlit("adsr");
    reveal_strlit("amp2db");
    reveal_strlit("a2db");
    reveal_strlit("c");
    reveal_strlit("c'");
    reveal_strlit("cheb2");
    reveal_strlit("cheb3");
    reveal_strlit("cheb4");
    reveal_strlit("cheb5");
    reveal_strlit("cheb6");
    reveal_strlit("circle");
    reveal_strlit("clamp");
    reveal_strlit("clip");
    reveal_strlit("cos");
    reveal_strlit("cos'");
    reveal_strlit("cosh");
    reveal_strlit("cosine");
    reveal_strlit("cosine'");
    reveal_strlit("cycle");
    reveal_strlit("cy");
    reveal_strlit("db2amp");
    reveal_strlit("db2a");
    reveal_strlit("dm");
    reveal_strlit("dmetro");
    reveal_strlit("dmh");
    reveal_strlit("dmetro_hold");
    reveal_strlit("dup");
    reveal_strlit("exp");
    reveal_strlit("biexp");
    reveal_strlit("expexp");
    reveal_strlit("explin");
    reveal_strlit("f2m");
    reveal_strlit("freq2midi");
    reveal_strlit("bp");
    reveal_strlit("bqbpf");
    reveal_strlit("h");
    reveal_strlit("bqhpf");
    reveal_strlit("hpf");
    reveal_strlit("impulse");
    reveal_strlit("in");
    reveal_strlit("input");
    reveal_strlit("l");
    reveal_strlit("bqlpf");
    reveal_strlit("linexp");
    reveal_strlit("linlin");
    reveal_strlit("project");
    reveal_strlit("lpf");
    reveal_strlit("m");
    reveal_strlit("metro");
    reveal_strlit("m2f");
    reveal_strlit("midi2freq");
    reveal_strlit("#");
    reveal_strlit("max");
    reveal_strlit("mh");
    reveal_strlit("metro_hold");
    reveal_strlit("min");
    reveal_strlit("n");
    reveal_strlit("noise");
    reveal_strlit("whiteNoise");
    reveal_strlit("notch");
    reveal_strlit("bqnotch");
    reveal_strlit("p");
    reveal_strlit("pan1");
    reveal_strlit("pan2");
    reveal_strlit("panx");
    reveal_strlit("pi");
    reveal_strlit("tau");
    reveal_strlit("pitch");
    reveal_strlit("pop");
    reveal_strlit("prime");
    reveal_strlit("pulse");
    reveal_strlit("q");
    reveal_strlit("quantize");
    reveal_strlit("r");
    reveal_strlit("range");
    reveal_strlit("rot");
    reveal_strlit("round");
    reveal_strlit("s");
    reveal_strlit("s'");
    reveal_strlit("saw");
    reveal_strlit("sh");
    reveal_strlit("sample&hold");
    reveal_strlit("ssh");
    reveal_strlit("silence");
    reveal_strlit("sin");
    reveal_strlit("sin'");
    reveal_strlit("sinc");
    reveal_strlit("sinc'");
    reveal_strlit("sine");
    reveal_strlit("sine'");
    reveal_strlit("sinh");
    reveal_strlit("spectral_shuffle");
    reveal_strlit("st1");
    reveal_strlit("spectral_reverse");
    assert(seq!['s', 'i', 'n', 'c'] =~= "sinc"@);
    assert(seq!['s', 'i', 'n', 'c'] != "adsr"@) by { assert(seq!['s', 'i', 'n', 'c'][0] != "adsr"@[0]); }
    assert(seq!['s', 'i', 'n', 'c'] != "a2db"@) by { assert(seq!['s', 'i', 'n', 'c'][0] != "a2db"@[0]); }
    assert(seq!['s', 'i', 'n', 'c'] != "clip"@) by { assert(seq!['s', 'i', 'n', 'c'][0] != "clip"@[0]); }
    assert(seq!['s', 'i', 'n', 'c'] != "cos'"@) by { assert(seq!['s', 'i', 'n', 'c'][0] != "cos'"@[0]); }
    assert(seq!['s', 'i', 'n', 'c'] != "cosh"@) by { assert(seq!['s', 'i', 'n', 'c'][0] != "cosh"@[0]); }
    assert(seq!['s', 'i', 'n', 'c'] != "db2a"@) by { assert(seq!['s', 'i', 'n', 'c'][0] != "db2a"@[0]); }
    assert(seq!['s', 'i', 'n', 'c'] != "pan1"@) by { assert(seq!['s', 'i', 'n', 'c'][0] != "pan1"@[0]); }
    assert(seq!['s', 'i', 'n', 'c'] != "pan2"@) by { assert(seq!['s', 'i', 'n', 'c'][0] != "pan2"@[0]); }
    assert(seq!['s', 'i', 'n', 'c'] != "panx"@) by { assert(seq!['s', 'i', 'n', 'c'][0] != "panx"@[0]); }
    assert(seq!['s', 'i', 'n', 'c'] != "sin'"@) by { assert(seq!['s', 'i', 'n', 'c'][3] != "sin'"@[3]); }
    assert(spec_named_op(seq!['s', 'i', 'n', 'c']) == Some(NamedOp::Sinc));
    assert(seq!['s', 'i', 'n', 'c', '\''] =~= "sinc'"@);
    assert(seq!['s', 'i', 'n', 'c', '\''] != "cheb2"@) by { assert(seq!['s', 'i', 'n', 'c', '\''][0] != "cheb2"@[0]); }
    assert(seq!['s', 'i', 'n', 'c', '\''] != "cheb3"@) by { assert(seq!['s', 'i', 'n', 'c', '\''][0] != "cheb3"@[0]); }
    assert(seq!['s', 'i', 'n', 'c', '\''] != "cheb4"@) by { assert(seq!['s', 'i', 'n', 'c', '\''][0] != "cheb4"@[0]); }
    assert(seq!['s', 'i', 'n', 'c', '\''] != "cheb5"@) by { assert(seq!['s', 'i', 'n', 'c', '\''][0] != "cheb5"@[0]); }
    assert(seq!['s', 'i', 'n', 'c', '\''] != "cheb6"@) by { assert(seq!['s', 'i', 'n', 'c', '\''][0] != "cheb6"@[0]); }
    assert(seq!['s', 'i', 'n', 'c', '\''] != "clamp"@) by { assert(seq!['s', 'i', 'n', 'c', '\''][0] != "clamp"@[0]); }
    assert(seq!['s', 'i', 'n', 'c', '\''] != "cycle"@) by { assert(seq!['s', 'i', 'n', 'c', '\''][0] != "cycle"@[0]); }
    assert(seq!['s', 'i', 'n', 'c', '\''] != "biexp"@) by { assert(seq!['s', 'i', 'n', 'c', '\''][0] != "biexp"@[0]); }
    assert(seq!['s', 'i', 'n', 'c', '\''] != "bqbpf"@) by { assert(seq!['s', 'i', 'n', 'c', '\''][0] != "bqbpf"@[0]); }
    assert(seq!['s', 'i', 'n', 'c', '\''] != "bqhpf"@) by { assert(seq!['s', 'i', 'n', 'c', '\''][0] != "bqhpf"@[0]); }
    assert(seq!['s', 'i', 'n', 'c', '\''] != "input"@) by { assert(seq!['s', 'i', 'n', 'c', '\''][0] != "input"@[0]); }
    assert(seq!['s', 'i', 'n', 'c', '\''] != "bqlpf"@) by { assert(seq!['s', 'i', 'n', 'c', '\''][0] != "bqlpf"@[0]); }
    assert(seq!['s', 'i', 'n', 'c', '\''] != "metro"@) by { assert(seq!['s', 'i', 'n', 'c', '\''][0] != "metro"@[0]); }
    assert(seq!['s', 'i', 'n', 'c', '\''] != "noise"@) by { assert(seq!['s', 'i', 'n', 'c', '\''][0] != "noise"@[0]); }
    assert(seq!['s', 'i', 'n', 'c', '\''] != "notch"@) by { assert(seq!['s', 'i', 'n', 'c', '\''][0] != "notch"@[0]); }
    assert(seq!['s', 'i', 'n', 'c', '\''] != "pitch"@) by { assert(seq!['s', 'i', 'n', 'c', '\''][0] != "pitch"@[0]); }
    assert(seq!['s', 'i', 'n', 'c', '\''] != "prime"@) by { assert(seq!['s', 'i', 'n', 'c', '\''][0] != "prime"@[0]); }
    assert(seq!['s', 'i', 'n', 'c', '\''] != "pulse"@) by { assert(seq!['s', 'i', 'n', 'c', '\''][0] != "pulse"@[0]); }
    assert(seq!['s', 'i', 'n', 'c', '\''] != "range"@) by { assert(seq!['s', 'i', 'n', 'c', '\''][0] != "range"@[0]); }
    assert(seq!['s', 'i', 'n', 'c', '\''] != "round"@) by { assert(seq!['s', 'i', 'n', 'c', '\''][0] != "round"@[0]); }
    assert(spec_named_op(seq!['s', 'i', 'n', 'c', '\'']) == Some(NamedOp::SincFast));
    assert(seq!['s', 'i', 'n', 'e'] =~= "sine"@);
    assert(seq!['s', 'i', 'n', 'e'] != "adsr"@) by { assert(seq!['s', 'i', 'n', 'e'][0] != "adsr"@[0]); }
    assert(seq!['s', 'i', 'n', 'e'] != "a2db"@) by { assert(seq!['s', 'i', 'n', 'e'][0] != "a2db"@[0]); }
    assert(seq!['s', 'i', 'n', 'e'] != "clip"@) by { assert(seq!['s', 'i', 'n', 'e'][0] != "clip"@[0]); }
    assert(seq!['s', 'i', 'n', 'e'] != "cos'"@) by { assert(seq!['s', 'i', 'n', 'e'][0] != "cos'"@[0]); }
    assert(seq!['s', 'i', 'n', 'e'] != "cosh"@) by { assert(seq!['s', 'i', 'n', 'e'][0] != "cosh"@[0]); }
    assert(seq!['s', 'i', 'n', 'e'] != "db2a"@) by { assert(seq!['s', 'i', 'n', 'e'][0] != "db2a"@[0]); }
    assert(seq!['s', 'i', 'n', 'e'] != "pan1"@) by { assert(seq!['s', 'i', 'n', 'e'][0] != "pan1"@[0]); }
    assert(seq!['s', 'i', 'n', 'e'] != "pan2"@) by { assert(seq!['s', 'i', 'n', 'e'][0] != "pan2"@[0]); }
    assert(seq!['s', 'i', 'n', 'e'] != "panx"@) by { assert(seq!['s', 'i', 'n', 'e'][0] != "panx"@[0]); }
    assert(seq!['s', 'i', 'n', 'e'] != "sin'"@) by { assert(seq!['s', 'i', 'n', 'e'][3] != "sin'"@[3]); }
    assert(seq!['s', 'i', 'n', 'e'] != "sinc"@) by { assert(seq!['s', 'i', 'n', 'e'][3] != "sinc"@[3]); }
    assert(spec_named_op(seq!['s', 'i', 'n', 'e']) == Some(NamedOp::Sine));
    assert(seq!['s', 'i', 'n', 'e', '\''] =~= "sine'"@);
    assert(seq!['s', 'i', 'n', 'e', '\''] != "cheb2"@) by { assert(seq!['s', 'i', 'n', 'e', '\''][0] != "cheb2"@[0]); }
    assert(seq!['s', 'i', 'n', 'e', '\''] != "cheb3"@) by { assert(seq!['s', 'i', 'n', 'e', '\''][0] != "cheb3"@[0]); }
    assert(seq!['s', 'i', 'n', 'e', '\''] != "cheb4"@) by { assert(seq!['s', 'i', 'n', 'e', '\''][0] != "cheb4"@[0]); }
    assert(seq!['s', 'i', 'n', 'e', '\''] != "cheb5"@) by { assert(seq!['s', 'i', 'n', 'e', '\''][0] != "cheb5"@[0]); }
    assert(seq!['s', 'i', 'n', 'e', '\''] != "cheb6"@) by { assert(seq!['s', 'i', 'n', 'e', '\''][0] != "cheb6"@[0]); }
    assert(seq!['s', 'i', 'n', 'e', '\''] != "clamp"@) by { assert(seq!['s', 'i', 'n', 'e', '\''][0] != "clamp"@[0]); }
    assert(seq!['s', 'i', 'n', 'e', '\''] != "cycle"@) by { assert(seq!['s', 'i', 'n', 'e', '\''][0] != "cycle"@[0]); }
    assert(seq!['s', 'i', 'n', 'e', '\''] != "biexp"@) by { assert(seq!['s', 'i', 'n', 'e', '\''][0] != "biexp"@[0]); }
    assert(seq!['s', 'i', 'n', 'e', '\''] != "bqbpf"@) by { assert(seq!['s', 'i', 'n', 'e', '\''][0] != "bqbpf"@[0]); }
    assert(seq!['s', 'i', 'n', 'e', '\''] != "bqhpf"@) by { assert(seq!['s', 'i', 'n', 'e', '\''][0] != "bqhpf"@[0]); }
    assert(seq!['s', 'i', 'n', 'e', '\''] != "input"@) by { assert(seq!['s', 'i', 'n', 'e', '\''][0] != "input"@[0]); }
    assert(seq!['s', 'i', 'n', 'e', '\''] != "bqlpf"@) by { assert(seq!['s', 'i', 'n', 'e', '\''][0] != "bqlpf"@[0]); }
    assert(seq!['s', 'i', 'n', 'e', '\''] != "metro"@) by { assert(seq!['s', 'i', 'n', 'e', '\''][0] != "metro"@[0]); }
    assert(seq!['s', 'i', 'n', 'e', '\''] != "noise"@) by { assert(seq!['s', 'i', 'n', 'e', '\''][0] != "noise"@[0]); }
    assert(seq!['s', 'i', 'n', 'e', '\''] != "notch"@) by { assert(seq!['s', 'i', 'n', 'e', '\''][0] != "notch"@[0]); }
    assert(seq!['s', 'i', 'n', 'e', '\''] != "pitch"@) by { assert(seq!['s', 'i', 'n', 'e', '\''][0] != "pitch"@[0]); }
    assert(seq!['s', 'i', 'n', 'e', '\''] != "prime"@) by { assert(seq!['s', 'i', 'n', 'e', '\''][0] != "prime"@[0]); }
    assert(seq!['s', 'i', 'n', 'e', '\''] != "pulse"@) by { assert(seq!['s', 'i', 'n', 'e', '\''][0] != "pulse"@[0]); }
    assert(seq!['s', 'i', 'n', 'e', '\''] != "range"@) by { assert(seq!['s', 'i', 'n', 'e', '\''][0] != "range"@[0]); }
    assert(seq!['s', 'i', 'n', 'e', '\''] != "round"@) by { assert(seq!['s', 'i', 'n', 'e', '\''][0] != "round"@[0]); }
    assert(seq!['s', 'i', 'n', 'e', '\''] != "sinc'"@) by { assert(seq!['s', 'i', 'n', 'e', '\''][3] != "sinc'"@[3]); }
    assert(spec_named_op(seq!['s', 'i', 'n', 'e', '\'']) == Some(NamedOp::SineFast));
    assert(seq!['s', 'i', 'n', 'h'] =~= "sinh"@);
    assert(seq!['s', 'i', 'n', 'h'] != "adsr"@) by { assert(seq!['s', 'i', 'n', 'h'][0] != "adsr"@[0]); }
    assert(seq!['s', 'i', 'n', 'h'] != "a2db"@) by { assert(seq!['s', 'i', 'n', 'h'][0] != "a2db"@[0]); }
    assert(seq!['s', 'i', 'n', 'h'] != "clip"@) by { assert(seq!['s', 'i', 'n', 'h'][0] != "clip"@[0]); }
    assert(seq!['s', 'i', 'n', 'h'] != "cos'"@) by { assert(seq!['s', 'i', 'n', 'h'][0] != "cos'"@[0]); }
    assert(seq!['s', 'i', 'n', 'h'] != "cosh"@) by { assert(seq!['s', 'i', 'n', 'h'][0] != "cosh"@[0]); }
    assert(seq!['s', 'i', 'n', 'h'] != "db2a"@) by { assert(seq!['s', 'i', 'n', 'h'][0] != "db2a"@[0]); }
    assert(seq!['s', 'i', 'n', 'h'] != "pan1"@) by { assert(seq!['s', 'i', 'n', 'h'][0] != "pan1"@[0]); }
    assert(seq!['s', 'i', 'n', 'h'] != "pan2"@) by { assert(seq!['s', 'i', 'n', 'h'][0] != "pan2"@[0]); }
    assert(seq!['s', 'i', 'n', 'h'] != "panx"@) by { assert(seq!['s', 'i', 'n', 'h'][0] != "panx"@[0]); }
    assert(seq!['s', 'i', 'n', 'h'] != "sin'"@) by { assert(seq!['s', 'i', 'n', 'h'][3] != "sin'"@[3]); }
    assert(seq!['s', 'i', 'n', 'h'] != "sinc"@) by { assert(seq!['s', 'i', 'n', 'h'][3] != "sinc"@[3]); }
    assert(seq!['s', 'i', 'n', 'h'] != "sine"@) by { assert(seq!['s', 'i', 'n', 'h'][3] != "sine"@[3]); }
    assert(spec_named_op(seq!['s', 'i', 'n', 'h']) == Some(NamedOp::Sinh));
    assert(seq!['s', 'p', 'e', 'c', 't', 'r', 'a', 'l', '_', 's', 'h', 'u', 'f', 'f', 'l', 'e'] =~= "spectral_shuffle"@);
    assert(spec_named_op(seq!['s', 'p', 'e', 'c', 't', 'r', 'a', 'l', '_', 's', 'h', 'u', 'f', 'f', 'l', 'e']) == Some(NamedOp::SpectralShuffle));
    assert(seq!['s', 't', '1'] =~= "st1"@);
    assert(seq!['s', 't', '1'] != "mul"@) by { assert(seq!['s', 't', '1'][0] != "mul"@[0]); }
    assert(seq!['s', 't', '1'] != "add"@) by { assert(seq!['s', 't', '1'][0] != "add"@[0]); }
    assert(seq!['s', 't', '1'] != "sub"@) by { assert(seq!['s', 't', '1'][1] != "sub"@[1]); }
    assert(seq!['s', 't', '1'] != "div"@) by { assert(seq!['s', 't', '1'][0] != "div"@[0]); }
    assert(seq!['s', 't', '1'] != "pow"@) by { assert(seq!['s', 't', '1'][0] != "pow"@[0]); }
    assert(seq!['s', 't', '1'] != "mod"@) by { assert(seq!['s', 't', '1'][0] != "mod"@[0]); }
    assert(seq!['s', 't', '1'] != "cos"@) by { assert(seq!['s', 't', '1'][0] != "cos"@[0]); }
    assert(seq!['s', 't', '1'] != "dmh"@) by { assert(seq!['s', 't', '1'][0] != "dmh"@[0]); }
    assert(seq!['s', 't', '1'] != "dup"@) by { assert(seq!['s', 't', '1'][0] != "dup"@[0]); }
    assert(seq!['s', 't', '1'] != "exp"@) by { assert(seq!['s', 't', '1'][0] != "exp"@[0]); }
    assert(seq!['s', 't', '1'] != "f2m"@) by { assert(seq!['s', 't', '1'][0] != "f2m"@[0]); }
    assert(seq!['s', 't', '1'] != "hpf"@) by { assert(seq!['s', 't', '1'][0] != "hpf"@[0]); }
    assert(seq!['s', 't', '1'] != "lpf"@) by { assert(seq!['s', 't', '1'][0] != "lpf"@[0]); }
    assert(seq!['s', 't', '1'] != "m2f"@) by { assert(seq!['s', 't', '1'][0] != "m2f"@[0]); }
    assert(seq!['s', 't', '1'] != "max"@) by { assert(seq!['s', 't', '1'][0] != "max"@[0]); }
    assert(seq!['s', 't', '1'] != "min"@) by { assert(seq!['s', 't', '1'][0] != "min"@[0]); }
    assert(seq!['s', 't', '1'] != "tau"@) by { assert(seq!['s', 't', '1'][0] != "tau"@[0]); }
    assert(seq!['s', 't', '1'] != "pop"@) by { assert(seq!['s', 't', '1'][0] != "pop"@[0]); }
    assert(seq!['s', 't', '1'] != "rot"@) by { assert(seq!['s', 't', '1'][0] != "rot"@[0]); }
    assert(seq!['s', 't', '1'] != "saw"@) by { assert(seq!['s', 't', '1'][1] != "saw"@[1]); }
    assert(seq!['s', 't', '1'] != "ssh"@) by { assert(seq!['s', 't', '1'][1] != "ssh"@[1]); }
    assert(seq!['s', 't', '1'] != "sin"@) by { assert(seq!['s', 't', '1'][1] != "sin"@[1]); }
    assert(spec_named_op(seq!['s', 't', '1']) == Some(NamedOp::St1));
    assert(seq!['s', 'p', 'e', 'c', 't', 'r', 'a', 'l', '_', 'r', 'e', 'v', 'e', 'r', 's', 'e'] =~= "spectral_reverse"@);
    assert(seq!['s', 'p', 'e', 'c', 't', 'r', 'a', 'l', '_', 'r', 'e', 'v', 'e', 'r', 's', 'e'] != "spectral_shuffle"@) by { assert(seq!['s', 'p', 'e', 'c', 't', 'r', 'a', 'l', '_', 'r', 'e', 'v', 'e', 'r', 's', 'e'][9] != "spectral_shuffle"@[9]); }
    assert(spec_named_op(seq!['s', 'p', 'e', 'c', 't', 'r', 'a', 'l', '_', 'r', 'e', 'v', 'e', 'r', 's', 'e']) == Some(NamedOp::SpectralReverse));
    assert forall|i: int| 0 <= i < op_words(NamedOp::Sinc).len() implies spec_named_op(#[trigger] op_words(NamedOp::Sinc)[i]) == Some(NamedOp::Sinc) by {}
    assert forall|i: int| 0 <= i < op_words(NamedOp::SincFast).len() implies spec_named_op(#[trigger] op_words(NamedOp::SincFast)[i]) == Some(NamedOp::SincFast) by {}
    assert forall|i: int| 0 <= i < op_words(NamedOp::Sine).len() implies spec_named_op(#[trigger] op_words(NamedOp::Sine)[i]) == Some(NamedOp::Sine) by {}
    assert forall|i: int| 0 <= i < op_words(NamedOp::SineFast).len() implies spec_named_op(#[trigger] op_words(NamedOp::SineFast)[i]) == Some(NamedOp::SineFast) by {}
    assert forall|i: int| 0 <= i < op_words(NamedOp::Sinh).len() implies spec_named_op(#[trigger] op_words(NamedOp::Sinh)[i]) == Some(NamedOp::Sinh) by {}
    assert forall|i: int| 0 <= i < op_words(NamedOp::SpectralShuffle).len() implies spec_named_op(#[trigger] op_words(NamedOp::SpectralShuffle)[i]) == Some(NamedOp::SpectralShuffle) by {}
    assert forall|i: int| 0 <= i < op_words(NamedOp::St1).len() implies spec_named_op(#[trigger] op_words(NamedOp::St1)[i]) == Some(NamedOp::St1) by {}
    assert forall|i: int| 0 <= i < op_words(NamedOp::SpectralReverse).len() implies spec_named_op(#[trigger] op_words(NamedOp::SpectralReverse)[i]) == Some(NamedOp::SpectralReverse) by {}
}

#[verifier::rlimit(50)]
proof fn lemma_listed_words_part10()
    ensures
        forall|i: int| 0 <= i < op_words(NamedOp::Sr).len() ==> spec_named_op(#[trigger] op_words(NamedOp::Sr)[i]) == Some(NamedOp::Sr),
        forall|i: int| 0 <= i < op_words(NamedOp::Swap).len() ==> spec_named_op(#[trigger] op_words(NamedOp::Swap)[i]) == Some(NamedOp::Swap),
        forall|i: int| 0 <= i < op_words(NamedOp::TriangleOsc).len() ==> spec_named_op(#[trigger] op_words(NamedOp::TriangleOsc)[i]) == Some(NamedOp::TriangleOsc),
        forall|i: int| 0 <= i < op_words(NamedOp::Tan).len() ==> spec_named_op(#[trigger] op_words(NamedOp::Tan)[i]) == Some(NamedOp::Tan),
        forall|i: int| 0 <= i < op_words(NamedOp::TanFast).len() ==> spec_named_op(#[trigger] op_words(NamedOp::TanFast)[i]) == Some(NamedOp::TanFast),
        forall|i: int| 0 <= i < op_words(NamedOp::Tanh).len() ==> spec_named_op(#[trigger] op_words(NamedOp::Tanh)[i]) == Some(NamedOp::Tanh),
        forall|i: int| 0 <= i < op_words(NamedOp::Tri).len() ==> spec_named_op(#[trigger] op_words(NamedOp::Tri)[i]) == Some(NamedOp::Tri),
        forall|i: int| 0 <= i < op_words(NamedOp::Tline).len() ==> spec_named_op(#[trigger] op_words(NamedOp::Tline)[i]) == Some(NamedOp::Tline),
{
    reveal_strlit("*");
    reveal_strlit("mul");
    reveal_strlit("+");
    reveal_strlit("add");
    reveal_strlit("-");
    reveal_strlit("sub");
    reveal_strlit("/");
    reveal_strlit("div");
    reveal_strlit("\\");
    reveal_strlit("^");
    reveal_strlit("pow");
    reveal_strlit("%");
    reveal_strlit("mod");
    reveal_strlit("adsr");
    reveal_strlit("amp2db");
    reveal_strlit("a2db");
    reveal_strlit("c");
    reveal_strlit("c'");
    reveal_strlit("cheb2");
    reveal_strlit("cheb3");
    reveal_strlit("cheb4");
    reveal_strlit("cheb5");
    reveal_strlit("cheb6");
    reveal_strlit("circle");
    reveal_strlit("clamp");
    reveal_strlit("clip");
    reveal_strlit("cos");
    reveal_strlit("cos'");
    reveal_strlit("cosh");
    reveal_strlit("cosine");
    reveal_strlit("cosine'");
    reveal_strlit("cycle");
    reveal_strlit("cy");
    reveal_strlit("db2amp");
    reveal_strlit("db2a");
    reveal_strlit("dm");
    reveal_strlit("dmetro");
    reveal_strlit("dmh");
    reveal_strlit("dmetro_hold");
    reveal_strlit("dup");
    reveal_strlit("exp");
    reveal_strlit("biexp");
    reveal_strlit("expexp");
    reveal_strlit("explin");
    reveal_strlit("f2m");
    reveal_strlit("freq2midi");
    reveal_strlit("bp");
    reveal_strlit("bqbpf");
    reveal_strlit("h");
    reveal_strlit("bqhpf");
    reveal_strlit("hpf");
    reveal_strlit("impulse");
    reveal_strlit("in");
    reveal_strlit("input");
    reveal_strlit("l");
    reveal_strlit("bqlpf");
    reveal_strlit("linexp");
    reveal_strlit("linlin");
    reveal_strlit("project");
    reveal_strlit("lpf");
    reveal_strlit("m");
    reveal_strlit("metro");
    reveal_strlit("m2f");
    reveal_strlit("midi2freq");
    reveal_strlit("#");
    reveal_strlit("max");
    reveal_strlit("mh");
    reveal_strlit("metro_hold");
    reveal_strlit("min");
    reveal_strlit("n");
    reveal_strlit("noise");
    reveal_strlit("whiteNoise");
    reveal_strlit("notch");
    reveal_strlit("bqnotch");
    reveal_strlit("p");
    reveal_strlit("pan1");
    reveal_strlit("pan2");
    reveal_strlit("panx");
    reveal_strlit("pi");
    reveal_strlit("tau");
    reveal_strlit("pitch");
    reveal_strlit("pop");
    reveal_strlit("prime");
    reveal_strlit("pulse");
    reveal_strlit("q");
    reveal_strlit("quantize");
    reveal_strlit("r");
    reveal_strlit("range");
    reveal_strlit("rot");
    reveal_strlit("round");
    reveal_strlit("s");
    reveal_strlit("s'");
    reveal_strlit("saw");
    reveal_strlit("sh");
    reveal_strlit("sample&hold");
    reveal_strlit("ssh");
    reveal_strlit("silence");
    reveal_strlit("sin");
    reveal_strlit("sin'");
    reveal_strlit("sinc");
    reveal_strlit("sinc'");
    reveal_strlit("sine");
    reveal_strlit("sine'");
    reveal_strlit("sinh");
    reveal_strlit("spectral_shuffle");
    reveal_strlit("st1");
    reveal_strlit("spectral_reverse");
    reveal_strlit("sr");
    reveal_strlit("swap");
    reveal_strlit("t");
    reveal_strlit("tan");
    reveal_strlit("tan'");
    reveal_strlit("tanh");
    reveal_strlit("tri");
    reveal_strlit("tline");
    assert(seq!['s', 'r'] =~= "sr"@);
    assert(seq!['s', 'r'] != "c'"@) by { assert(seq!['s', 'r'][0] != "c'"@[0]); }
    assert(seq!['s', 'r'] != "cy"@) by { assert(seq!['s', 'r'][0] != "cy"@[0]); }
    assert(seq!['s', 'r'] != "dm"@) by { assert(seq!['s', 'r'][0] != "dm"@[0]); }
    assert(seq!['s', 'r'] != "bp"@) by { assert(seq!['s', 'r'][0] != "bp"@[0]); }
    assert(seq!['s', 'r'] != "in"@) by { assert(seq!['s', 'r'][0] != "in"@[0]); }
    assert(seq!['s', 'r'] != "mh"@) by { assert(seq!['s', 'r'][0] != "mh"@[0]); }
    assert(seq!['s', 'r'] != "pi"@) by { assert(seq!['s', 'r'][0] != "pi"@[0]); }
    assert(seq!['s', 'r'] != "s'"@) by { assert(seq!['s', 'r'][1] != "s'"@[1]); }
    assert(seq!['s', 'r'] != "sh"@) by { assert(seq!['s', 'r'][1] != "sh"@[1]); }
    assert(spec_named_op(seq!['s', 'r']) == Some(NamedOp::Sr));
    assert(seq!['s', 'w', 'a', 'p'] =~= "swap"@);
    assert(seq!['s', 'w', 'a', 'p'] != "adsr"@) by { assert(seq!['s', 'w', 'a', 'p'][0] != "adsr"@[0]); }
    assert(seq!['s', 'w', 'a', 'p'] != "a2db"@) by { assert(seq!['s', 'w', 'a', 'p'][0] != "a2db"@[0]); }
    assert(seq!['s', 'w', 'a', 'p'] != "clip"@) by { assert(seq!['s', 'w', 'a', 'p'][0] != "clip"@[0]); }
    assert(seq!['s', 'w', 'a', 'p'] != "cos'"@) by { assert(seq!['s', 'w', 'a', 'p'][0] != "cos'"@[0]); }
    assert(seq!['s', 'w', 'a', 'p'] != "cosh"@) by { assert(seq!['s', 'w', 'a', 'p'][0] != "cosh"@[0]); }
    assert(seq!['s', 'w', 'a', 'p'] != "db2a"@) by { assert(seq!['s', 'w', 'a', 'p'][0] != "db2a"@[0]); }
    assert(seq!['s', 'w', 'a', 'p'] != "pan1"@) by { assert(seq!['s', 'w', 'a', 'p'][0] != "pan1"@[0]); }
    assert(seq!['s', 'w', 'a', 'p'] != "pan2"@) by { assert(seq!['s', 'w', 'a', 'p'][0] != "pan2"@[0]); }
    assert(seq!['s', 'w', 'a', 'p'] != "panx"@) by { assert(seq!['s', 'w', 'a', 'p'][0] != "panx"@[0]); }
    assert(seq!['s', 'w', 'a', 'p'] != "sin'"@) by { assert(seq!['s', 'w', 'a', 'p'][1] != "sin'"@[1]); }
    assert(seq!['s', 'w', 'a', 'p'] != "sinc"@) by { assert(seq!['s', 'w', 'a', 'p'][1] != "sinc"@[1]); }
    assert(seq!['s', 'w', 'a', 'p'] != "sine"@) by { assert(seq!['s', 'w', 'a', 'p'][1] != "sine"@[1]); }
    assert(seq!['s', 'w', 'a', 'p'] != "sinh"@) by { assert(seq!['s', 'w', 'a', 'p'][1] != "sinh"@[1]); }
    assert(spec_named_op(seq!['s', 'w', 'a', 'p']) == Some(NamedOp::Swap));
    assert(seq!['t'] =~= "t"@);
    assert(seq!['t'] != "*"@) by { assert(seq!['t'][0] != "*"@[0]); }
    assert(seq!['t'] != "+"@) by { assert(seq!['t'][0] != "+"@[0]); }
    assert(seq!['t'] != "-"@) by { assert(seq!['t'][0] != "-"@[0]); }
    assert(seq!['t'] != "/"@) by { assert(seq!['t'][0] != "/"@[0]); }
    assert(seq!['t'] != "\\"@) by { assert(seq!['t'][0] != "\\"@[0]); }
    assert(seq!['t'] != "^"@) by { assert(seq!['t'][0] != "^"@[0]); }
    assert(seq!['t'] != "%"@) by { assert(seq!['t'][0] != "%"@[0]); }
    assert(seq!['t'] != "c"@) by { assert(seq!['t'][0] != "c"@[0]); }
    assert(seq!['t'] != "h"@) by { assert(seq!['t'][0] != "h"@[0]); }
    assert(seq!['t'] != "l"@) by { assert(seq!['t'][0] != "l"@[0]); }
    assert(seq!['t'] != "m"@) by { assert(seq!['t'][0] != "m"@[0]); }
    assert(seq!['t'] != "#"@) by { assert(seq!['t'][0] != "#"@[0]); }
    assert(seq!['t'] != "n"@) by { assert(seq!['t'][0] != "n"@[0]); }
    assert(seq!['t'] != "p"@) by { assert(seq!['t'][0] != "p"@[0]); }
    assert(seq!['t'] != "q"@) by { assert(seq!['t'][0] != "q"@[0]); }
    assert(seq!['t'] != "r"@) by { assert(seq!['t'][0] != "r"@[0]); }
    assert(seq!['t'] != "s"@) by { assert(seq!['t'][0] != "s"@[0]); }
    assert(spec_named_op(seq!['t']) == Some(NamedOp::TriangleOsc));
    assert(seq!['t', 'a', 'n'] =~= "tan"@);
    assert(seq!['t', 'a', 'n'] != "mul"@) by { assert(seq!['t', 'a', 'n'][0] != "mul"@[0]); }
    assert(seq!['t', 'a', 'n'] != "add"@) by { assert(seq!['t', 'a', 'n'][0] != "add"@[0]); }
    assert(seq!['t', 'a', 'n'] != "sub"@) by { assert(seq!['t', 'a', 'n'][0] != "sub"@[0]); }
    assert(seq!['t', 'a', 'n'] != "div"@) by { assert(seq!['t', 'a', 'n'][0] != "div"@[0]); }
    assert(seq!['t', 'a', 'n'] != "pow"@) by { assert(seq!['t', 'a', 'n'][0] != "pow"@[0]); }
    assert(seq!['t', 'a', 'n'] != "mod"@) by { assert(seq!['t', 'a', 'n'][0] != "mod"@[0]); }
    assert(seq!['t', 'a', 'n'] != "cos"@) by { assert(seq!['t', 'a', 'n'][0] != "cos"@[0]); }
    assert(seq!['t', 'a', 'n'] != "dmh"@) by { assert(seq!['t', 'a', 'n'][0] != "dmh"@[0]); }
    assert(seq!['t', 'a', 'n'] != "dup"@) by { assert(seq!['t', 'a', 'n'][0] != "dup"@[0]); }
    assert(seq!['t', 'a', 'n'] != "exp"@) by { assert(seq!['t', 'a', 'n'][0] != "exp"@[0]); }
    assert(seq!['t', 'a', 'n'] != "f2m"@) by { assert(seq!['t', 'a', 'n'][0] != "f2m"@[0]); }
    assert(seq!['t', 'a', 'n'] != "hpf"@) by { assert(seq!['t', 'a', 'n'][0] != "hpf"@[0]); }
    assert(seq!['t', 'a', 'n'] != "lpf"@) by { assert(seq!['t', 'a', 'n'][0] != "lpf"@[0]); }
    assert(seq!['t', 'a', 'n'] != "m2f"@) by { assert(seq!['t', 'a', 'n'][0] != "m2f"@[0]); }
    assert(seq!['t', 'a', 'n'] != "max"@) by { assert(seq!['t', 'a', 'n'][0] != "max"@[0]); }
    assert(seq!['t', 'a', 'n'] != "min"@) by { assert(seq!['t', 'a', 'n'][0] != "min"@[0]); }
    assert(seq!['t', 'a', 'n'] != "tau"@) by { assert(seq!['t', 'a', 'n'][2] != "tau"@[2]); }
    assert(seq!['t', 'a', 'n'] != "pop"@) by { assert(seq!['t', 'a', 'n'][0] != "pop"@[0]); }
    assert(seq!['t', 'a', 'n'] != "rot"@) by { assert(seq!['t', 'a', 'n'][0] != "rot"@[0]); }
    assert(seq!['t', 'a', 'n'] != "saw"@) by { assert(seq!['t', 'a', 'n'][0] != "saw"@[0]); }
    assert(seq!['t', 'a', 'n'] != "ssh"@) by { assert(seq!['t', 'a', 'n'][0] != "ssh"@[0]); }
    assert(seq!['t', 'a', 'n'] != "sin"@) by { assert(seq!['t', 'a', 'n'][0] != "sin"@[0]); }
    assert(seq!['t', 'a', 'n'] != "st1"@) by { assert(seq!['t', 'a', 'n'][0] != "st1"@[0]); }
    assert(spec_named_op(seq!['t', 'a', 'n']) == Some(NamedOp::Tan));
    assert(seq!['t', 'a', 'n', '\''] =~= "tan'"@);
    assert(seq!['t', 'a', 'n', '\''] != "adsr"@) by { assert(seq!['t', 'a', 'n', '\''][0] != "adsr"@[0]); }
    assert(seq!['t', 'a', 'n', '\''] != "a2db"@) by { assert(seq!['t', 'a', 'n', '\''][0] != "a2db"@[0]); }
    assert(seq!['t', 'a', 'n', '\''] != "clip"@) by { assert(seq!['t', 'a', 'n', '\''][0] != "clip"@[0]); }
    assert(seq!['t', 'a', 'n', '\''] != "cos'"@) by { assert(seq!['t', 'a', 'n', '\''][0] != "cos'"@[0]); }
    assert(seq!['t', 'a', 'n', '\''] != "cosh"@) by { assert(seq!['t', 'a', 'n', '\''][0] != "cosh"@[0]); }
    assert(seq!['t', 'a', 'n', '\''] != "db2a"@) by { assert(seq!['t', 'a', 'n', '\''][0] != "db2a"@[0]); }
    assert(seq!['t', 'a', 'n', '\''] != "pan1"@) by { assert(seq!['t', 'a', 'n', '\''][0] != "pan1"@[0]); }
    assert(seq!['t', 'a', 'n', '\''] != "pan2"@) by { assert(seq!['t', 'a', 'n', '\''][0] != "pan2"@[0]); }
    assert(seq!['t', 'a', 'n', '\''] != "panx"@) by { assert(seq!['t', 'a', 'n', '\''][0] != "panx"@[0]); }
    assert(seq!['t', 'a', 'n', '\''] != "sin'"@) by { assert(seq!['t', 'a', 'n', '\''][0] != "sin'"@[0]); }
    assert(seq!['t', 'a', 'n', '\''] != "sinc"@) by { assert(seq!['t', 'a', 'n', '\''][0] != "sinc"@[0]); }
    assert(seq!['t', 'a', 'n', '\''] != "sine"@) by { assert(seq!['t', 'a', 'n', '\''][0] != "sine"@[0]); }
    assert(seq!['t', 'a', 'n', '\''] != "sinh"@) by { assert(seq!['t', 'a', 'n', '\''][0] != "sinh"@[0]); }
    assert(seq!['t', 'a', 'n', '\''] != "swap"@) by { assert(seq!['t', 'a', 'n', '\''][0] != "swap"@[0]); }
    assert(spec_named_op(seq!['t', 'a', 'n', '\'']) == Some(NamedOp::TanFast));
    assert(seq!['t', 'a', 'n', 'h'] =~= "tanh"@);
    assert(seq!['t', 'a', 'n', 'h'] != "adsr"@) by { assert(seq!['t', 'a', 'n', 'h'][0] != "adsr"@[0]); }
    assert(seq!['t', 'a', 'n', 'h'] != "a2db"@) by { assert(seq!['t', 'a', 'n', 'h'][0] != "a2db"@[0]); }
    assert(seq!['t', 'a', 'n', 'h'] != "clip"@) by { assert(seq!['t', 'a', 'n', 'h'][0] != "clip"@[0]); }
    assert(seq!['t', 'a', 'n', 'h'] != "cos'"@) by { assert(seq!['t', 'a', 'n', 'h'][0] != "cos'"@[0]); }
    assert(seq!['t', 'a', 'n', 'h'] != "cosh"@) by { assert(seq!['t', 'a', 'n', 'h'][0] != "cosh"@[0]); }
    assert(seq!['t', 'a', 'n', 'h'] != "db2a"@) by { assert(seq!['t', 'a', 'n', 'h'][0] != "db2a"@[0]); }
    assert(seq!['t', 'a', 'n', 'h'] != "pan1"@) by { assert(seq!['t', 'a', 'n', 'h'][0] != "pan1"@[0]); }
    assert(seq!['t', 'a', 'n', 'h'] != "pan2"@) by { assert(seq!['t', 'a', 'n', 'h'][0] != "pan2"@[0]); }
    assert(seq!['t', 'a', 'n', 'h'] != "panx"@) by { assert(seq!['t', 'a', 'n', 'h'][0] != "panx"@[0]); }
    assert(seq!['t', 'a', 'n', 'h'] != "sin'"@) by { assert(seq!['t', 'a', 'n', 'h'][0] != "sin'"@[0]); }
    assert(seq!['t', 'a', 'n', 'h'] != "sinc"@) by { assert(seq!['t', 'a', 'n', 'h'][0] != "sinc"@[0]); }
    assert(seq!['t', 'a', 'n', 'h'] != "sine"@) by { assert(seq!['t', 'a', 'n', 'h'][0] != "sine"@[0]); }
    assert(seq!['t', 'a', 'n', 'h'] != "sinh"@) by { assert(seq!['t', 'a', 'n', 'h'][0] != "sinh"@[0]); }
    assert(seq!['t', 'a', 'n', 'h'] != "swap"@) by { assert(seq!['t', 'a', 'n', 'h'][0] != "swap"@[0]); }
    assert(seq!['t', 'a', 'n', 'h'] != "tan'"@) by { assert(seq!['t', 'a', 'n', 'h'][3] != "tan'"@[3]); }
    assert(spec_named_op(seq!['t', 'a', 'n', 'h']) == Some(NamedOp::Tanh));
    assert(seq!['t', 'r', 'i'] =~= "tri"@);
    assert(seq!['t', 'r', 'i'] != "mul"@) by { assert(seq!['t', 'r', 'i'][0] != "mul"@[0]); }
    assert(seq!['t', 'r', 'i'] != "add"@) by { assert(seq!['t', 'r', 'i'][0] != "add"@[0]); }
    assert(seq!['t', 'r', 'i'] != "sub"@) by { assert(seq!['t', 'r', 'i'][0] != "sub"@[0]); }
    assert(seq!['t', 'r', 'i'] != "div"@) by { assert(seq!['t', 'r', 'i'][0] != "div"@[0]); }
    assert(seq!['t', 'r', 'i'] != "pow"@) by { assert(seq!['t', 'r', 'i'][0] != "pow"@[0]); }
    assert(seq!['t', 'r', 'i'] != "mod"@) by { assert(seq!['t', 'r', 'i'][0] != "mod"@[0]); }
    assert(seq!['t', 'r', 'i'] != "cos"@) by { assert(seq!['t', 'r', 'i'][0] != "cos"@[0]); }
    assert(seq!['t', 'r', 'i'] != "dmh"@) by { assert(seq!['t', 'r', 'i'][0] != "dmh"@[0]); }
    assert(seq!['t', 'r', 'i'] != "dup"@) by { assert(seq!['t', 'r', 'i'][0] != "dup"@[0]); }
    assert(seq!['t', 'r', 'i'] != "exp"@) by { assert(seq!['t', 'r', 'i'][0] != "exp"@[0]); }
    assert(seq!['t', 'r', 'i'] != "f2m"@) by { assert(seq!['t', 'r', 'i'][0] != "f2m"@[0]); }
    assert(seq!['t', 'r', 'i'] != "hpf"@) by { assert(seq!['t', 'r', 'i'][0] != "hpf"@[0]); }
    assert(seq!['t', 'r', 'i'] != "lpf"@) by { assert(seq!['t', 'r', 'i'][0] != "lpf"@[0]); }
    assert(seq!['t', 'r', 'i'] != "m2f"@) by { assert(seq!['t', 'r', 'i'][0] != "m2f"@[0]); }
    assert(seq!['t', 'r', 'i'] != "max"@) by { assert(seq!['t', 'r', 'i'][0] != "max"@[0]); }
    assert(seq!['t', 'r', 'i'] != "min"@) by { assert(seq!['t', 'r', 'i'][0] != "min"@[0]); }
    assert(seq!['t', 'r', 'i'] != "tau"@) by { assert(seq!['t', 'r', 'i'][1] != "tau"@[1]); }
    assert(seq!['t', 'r', 'i'] != "pop"@) by { assert(seq!['t', 'r', 'i'][0] != "pop"@[0]); }
    assert(seq!['t', 'r', 'i'] != "rot"@) by { assert(seq!['t', 'r', 'i'][0] != "rot"@[0]); }
    assert(seq!['t', 'r', 'i'] != "saw"@) by { assert(seq!['t', 'r', 'i'][0] != "saw"@[0]); }
    assert(seq!['t', 'r', 'i'] != "ssh"@) by { assert(seq!['t', 'r', 'i'][0] != "ssh"@[0]); }
    assert(seq!['t', 'r', 'i'] != "sin"@) by { assert(seq!['t', 'r', 'i'][0] != "sin"@[0]); }
    assert(seq!['t', 'r', 'i'] != "st1"@) by { assert(seq!['t', 'r', 'i'][0] != "st1"@[0]); }
    assert(seq!['t', 'r', 'i'] != "tan"@) by { assert(seq!['t', 'r', 'i'][1] != "tan"@[1]); }
    assert(spec_named_op(seq!['t', 'r', 'i']) == Some(NamedOp::Tri));
    assert(seq!['t', 'l', 'i', 'n', 'e'] =~= "tline"@);
    assert(seq!['t', 'l', 'i', 'n', 'e'] != "cheb2"@) by { assert(seq!['t', 'l', 'i', 'n', 'e'][0] != "cheb2"@[0]); }
    assert(seq!['t', 'l', 'i', 'n', 'e'] != "cheb3"@) by { assert(seq!['t', 'l', 'i', 'n', 'e'][0] != "cheb3"@[0]); }
    assert(seq!['t', 'l', 'i', 'n', 'e'] != "cheb4"@) by { assert(seq!['t', 'l', 'i', 'n', 'e'][0] != "cheb4"@[0]); }
    assert(seq!['t', 'l', 'i', 'n', 'e'] != "cheb5"@) by { assert(seq!['t', 'l', 'i', 'n', 'e'][0] != "cheb5"@[0]); }
    assert(seq!['t', 'l', 'i', 'n', 'e'] != "cheb6"@) by { assert(seq!['t', 'l', 'i', 'n', 'e'][0] != "cheb6"@[0]); }
    assert(seq!['t', 'l', 'i', 'n', 'e'] != "clamp"@) by { assert(seq!['t', 'l', 'i', 'n', 'e'][0] != "clamp"@[0]); }
    assert(seq!['t', 'l', 'i', 'n', 'e'] != "cycle"@) by { assert(seq!['t', 'l', 'i', 'n', 'e'][0] != "cycle"@[0]); }
    assert(seq!['t', 'l', 'i', 'n', 'e'] != "biexp"@) by { assert(seq!['t', 'l', 'i', 'n', 'e'][0] != "biexp"@[0]); }
    assert(seq!['t', 'l', 'i', 'n', 'e'] != "bqbpf"@) by { assert(seq!['t', 'l', 'i', 'n', 'e'][0] != "bqbpf"@[0]); }
    assert(seq!['t', 'l', 'i', 'n', 'e'] != "bqhpf"@) by { assert(seq!['t', 'l', 'i', 'n', 'e'][0] != "bqhpf"@[0]); }
    assert(seq!['t', 'l', 'i', 'n', 'e'] != "input"@) by { assert(seq!['t', 'l', 'i', 'n', 'e'][0] != "input"@[0]); }
    assert(seq!['t', 'l', 'i', 'n', 'e'] != "bqlpf"@) by { assert(seq!['t', 'l', 'i', 'n', 'e'][0] != "bqlpf"@[0]); }
    assert(seq!['t', 'l', 'i', 'n', 'e'] != "metro"@) by { assert(seq!['t', 'l', 'i', 'n', 'e'][0] != "metro"@[0]); }
    assert(seq!['t', 'l', 'i', 'n', 'e'] != "noise"@) by { assert(seq!['t', 'l', 'i', 'n', 'e'][0] != "noise"@[0]); }
    assert(seq!['t', 'l', 'i', 'n', 'e'] != "notch"@) by { assert(seq!['t', 'l', 'i', 'n', 'e'][0] != "notch"@[0]); }
    assert(seq!['t', 'l', 'i', 'n', 'e'] != "pitch"@) by { assert(seq!['t', 'l', 'i', 'n', 'e'][0] != "pitch"@[0]); }
    assert(seq!['t', 'l', 'i', 'n', 'e'] != "prime"@) by { assert(seq!['t', 'l', 'i', 'n', 'e'][0] != "prime"@[0]); }
    assert(seq!['t', 'l', 'i', 'n', 'e'] != "pulse"@) by { assert(seq!['t', 'l', 'i', 'n', 'e'][0] != "pulse"@[0]); }
    assert(seq!['t', 'l', 'i', 'n', 'e'] != "range"@) by { assert(seq!['t', 'l', 'i', 'n', 'e'][0] != "range"@[0]); }
    assert(seq!['t', 'l', 'i', 'n', 'e'] != "round"@) by { assert(seq!['t', 'l', 'i', 'n', 'e'][0] != "round"@[0]); }
    assert(seq!['t', 'l', 'i', 'n', 'e'] != "sinc'"@) by { assert(seq!['t', 'l', 'i', 'n', 'e'][0] != "sinc'"@[0]); }
    assert(seq!['t', 'l', 'i', 'n', 'e'] != "sine'"@) by { assert(seq!['t', 'l', 'i', 'n', 'e'][0] != "sine'"@[0]); }
    assert(spec_named_op(seq!['t', 'l', 'i', 'n', 'e']) == Some(NamedOp::Tline));
    assert forall|i: int| 0 <= i < op_words(NamedOp::Sr).len() implies spec_named_op(#[trigger] op_words(NamedOp::Sr)[i]) == Some(NamedOp::Sr) by {}
    assert forall|i: int| 0 <= i < op_words(NamedOp::Swap).len() implies spec_named_op(#[trigger] op_words(NamedOp::Swap)[i]) == Some(NamedOp::Swap) by {}
    assert forall|i: int| 0 <= i < op_words(NamedOp::TriangleOsc).len() implies spec_named_op(#[trigger] op_words(NamedOp::TriangleOsc)[i]) == Some(NamedOp::TriangleOsc) by {}
    assert forall|i: int| 0 <= i < op_words(NamedOp::Tan).len() implies spec_named_op(#[trigger] op_words(NamedOp::Tan)[i]) == Some(NamedOp::Tan) by {}
    assert forall|i: int| 0 <= i < op_words(NamedOp::TanFast).len() implies spec_named_op(#[trigger] op_words(NamedOp::TanFast)[i]) == Some(NamedOp::TanFast) by {}
    assert forall|i: int| 0 <= i < op_words(NamedOp::Tanh).len() implies spec_named_op(#[trigger] op_words(NamedOp::Tanh)[i]) == Some(NamedOp::Tanh) by {}
    assert forall|i: int| 0 <= i < op_words(NamedOp::Tri).len() implies spec_named_op(#[trigger] op_words(NamedOp::Tri)[i]) == Some(NamedOp::Tri) by {}
    assert forall|i: int| 0 <= i < op_words(NamedOp::Tline).len() implies spec_named_op(#[trigger] op_words(NamedOp::Tline)[i]) == Some(NamedOp::Tline) by {}
}

#[verifier::rlimit(50)]
proof fn lemma_listed_words_part11()
    ensures
        forall|i: int| 0 <= i < op_words(NamedOp::Tquad).len() ==> spec_named_op(#[trigger] op_words(NamedOp::Tquad)[i]) == Some(NamedOp::Tquad),
        forall|i: int| 0 <= i < op_words(NamedOp::Uniexp).len() ==> spec_named_op(#[trigger] op_words(NamedOp::Uniexp)[i]) == Some(NamedOp::Uniexp),
        forall|i: int| 0 <= i < op_words(NamedOp::Unit).len() ==> spec_named_op(#[trigger] op_words(NamedOp::Unit)[i]) == Some(NamedOp::Unit),
        forall|i: int| 0 <= i < op_words(NamedOp::Phasor).len() ==> spec_named_op(#[trigger] op_words(NamedOp::Phasor)[i]) == Some(NamedOp::Phasor),
        forall|i: int| 0 <= i < op_words(NamedOp::Wah).len() ==> spec_named_op(#[trigger] op_words(NamedOp::Wah)[i]) == Some(NamedOp::Wah),
        forall|i: int| 0 <= i < op_words(NamedOp::Wrap).len() ==> spec_named_op(#[trigger] op_words(NamedOp::Wrap)[i]) == Some(NamedOp::Wrap),
{
    reveal_strlit("*");
    reveal_strlit("mul");
    reveal_strlit("+");
    reveal_strlit("add");
    reveal_strlit("-");
    reveal_strlit("sub");
    reveal_strlit("/");
    reveal_strlit("div");
    reveal_strlit("\\");
    reveal_strlit("^");
    reveal_strlit("pow");
    reveal_strlit("%");
    reveal_strlit("mod");
    reveal_strlit("adsr");
    reveal_strlit("amp2db");
    reveal_strlit("a2db");
    reveal_strlit("c");
    reveal_strlit("c'");
    reveal_strlit("cheb2");
    reveal_strlit("cheb3");
    reveal_strlit("cheb4");
    reveal_strlit("cheb5");
    reveal_strlit("cheb6");
    reveal_strlit("circle");
    reveal_strlit("clamp");
    reveal_strlit("clip");
    reveal_strlit("cos");
    reveal_strlit("cos'");
    reveal_strlit("cosh");
    reveal_strlit("cosine");
    reveal_strlit("cosine'");
    reveal_strlit("cycle");
    reveal_strlit("cy");
    reveal_strlit("db2amp");
    reveal_strlit("db2a");
    reveal_strlit("dm");
    reveal_strlit("dmetro");
    reveal_strlit("dmh");
    reveal_strlit("dmetro_hold");
    reveal_strlit("dup");
    reveal_strlit("exp");
    reveal_strlit("biexp");
    reveal_strlit("expexp");
    reveal_strlit("explin");
    reveal_strlit("f2m");
    reveal_strlit("freq2midi");
    reveal_strlit("bp");
    reveal_strlit("bqbpf");
    reveal_strlit("h");
    reveal_strlit("bqhpf");
    reveal_strlit("hpf");
    reveal_strlit("impulse");
    reveal_strlit("in");
    reveal_strlit("input");
    reveal_strlit("l");
    reveal_strlit("bqlpf");
    reveal_strlit("linexp");
    reveal_strlit("linlin");
    reveal_strlit("project");
    reveal_strlit("lpf");
    reveal_strlit("m");
    reveal_strlit("metro");
    reveal_strlit("m2f");
    reveal_strlit("midi2freq");
    reveal_strlit("#");
    reveal_strlit("max");
    reveal_strlit("mh");
    reveal_strlit("metro_hold");
    reveal_strlit("min");
    reveal_strlit("n");
    reveal_strlit("noise");
    reveal_strlit("whiteNoise");
    reveal_strlit("notch");
    reveal_strlit("bqnotch");
    reveal_strlit("p");
    reveal_strlit("pan1");
    reveal_strlit("pan2");
    reveal_strlit("panx");
    reveal_strlit("pi");
    reveal_strlit("tau");
    reveal_strlit("pitch");
    reveal_strlit("pop");
    reveal_strlit("prime");
    reveal_strlit("pulse");
    reveal_strlit("q");
    reveal_strlit("quantize");
    reveal_strlit("r");
    reveal_strlit("range");
    reveal_strlit("rot");
    reveal_strlit("round");
    reveal_strlit("s");
    reveal_strlit("s'");
    reveal_strlit("saw");
    reveal_strlit("sh");
    reveal_strlit("sample&hold");
    reveal_strlit("ssh");
    reveal_strlit("silence");
    reveal_strlit("sin");
    reveal_strlit("sin'");
    reveal_strlit("sinc");
    reveal_strlit("sinc'");
    reveal_strlit("sine");
    reveal_strlit("sine'");
    reveal_strlit("sinh");
    reveal_strlit("spectral_shuffle");
    reveal_strlit("st1");
    reveal_strlit("spectral_reverse");
    reveal_strlit("sr");
    reveal_strlit("swap");
    reveal_strlit("t");
    reveal_strlit("tan");
    reveal_strlit("tan'");
    reveal_strlit("tanh");
    reveal_strlit("tri");
    reveal_strlit("tline");
    reveal_strlit("tquad");
    reveal_strlit("uniexp");
    reveal_strlit("unit");
    reveal_strlit("w");
    reveal_strlit("wah");
    reveal_strlit("wrap");
    assert(seq!['t', 'q', 'u', 'a', 'd'] =~= "tquad"@);
    assert(seq!['t', 'q', 'u', 'a', 'd'] != "cheb2"@) by { assert(seq!['t', 'q', 'u', 'a', 'd'][0] != "cheb2"@[0]); }
    assert(seq!['t', 'q', 'u', 'a', 'd'] != "cheb3"@) by { assert(seq!['t', 'q', 'u', 'a', 'd'][0] != "cheb3"@[0]); }
    assert(seq!['t', 'q', 'u', 'a', 'd'] != "cheb4"@) by { assert(seq!['t', 'q', 'u', 'a', 'd'][0] != "cheb4"@[0]); }
    assert(seq!['t', 'q', 'u', 'a', 'd'] != "cheb5"@) by { assert(seq!['t', 'q', 'u', 'a', 'd'][0] != "cheb5"@[0]); }
    assert(seq!['t', 'q', 'u', 'a', 'd'] != "cheb6"@) by { assert(seq!['t', 'q', 'u', 'a', 'd'][0] != "cheb6"@[0]); }
    assert(seq!['t', 'q', 'u', 'a', 'd'] != "clamp"@) by { assert(seq!['t', 'q', 'u', 'a', 'd'][0] != "clamp"@[0]); }
    assert(seq!['t', 'q', 'u', 'a', 'd'] != "cycle"@) by { assert(seq!['t', 'q', 'u', 'a', 'd'][0] != "cycle"@[0]); }
    assert(seq!['t', 'q', 'u', 'a', 'd'] != "biexp"@) by { assert(seq!['t', 'q', 'u', 'a', 'd'][0] != "biexp"@[0]); }
    assert(seq!['t', 'q', 'u', 'a', 'd'] != "bqbpf"@) by { assert(seq!['t', 'q', 'u', 'a', 'd'][0] != "bqbpf"@[0]); }
    assert(seq!['t', 'q', 'u', 'a', 'd'] != "bqhpf"@) by { assert(seq!['t', 'q', 'u', 'a', 'd'][0] != "bqhpf"@[0]); }
    assert(seq!['t', 'q', 'u', 'a', 'd'] != "input"@) by { assert(seq!['t', 'q', 'u', 'a', 'd'][0] != "input"@[0]); }
    assert(seq!['t', 'q', 'u', 'a', 'd'] != "bqlpf"@) by { assert(seq!['t', 'q', 'u', 'a', 'd'][0] != "bqlpf"@[0]); }
    assert(seq!['t', 'q', 'u', 'a', 'd'] != "metro"@) by { assert(seq!['t', 'q', 'u', 'a', 'd'][0] != "metro"@[0]); }
    assert(seq!['t', 'q', 'u', 'a', 'd'] != "noise"@) by { assert(seq!['t', 'q', 'u', 'a', 'd'][0] != "noise"@[0]); }
    assert(seq!['t', 'q', 'u', 'a', 'd'] != "notch"@) by { assert(seq!['t', 'q', 'u', 'a', 'd'][0] != "notch"@[0]); }
    assert(seq!['t', 'q', 'u', 'a', 'd'] != "pitch"@) by { assert(seq!['t', 'q', 'u', 'a', 'd'][0] != "pitch"@[0]); }
    assert(seq!['t', 'q', 'u', 'a', 'd'] != "prime"@) by { assert(seq!['t', 'q', 'u', 'a', 'd'][0] != "prime"@[0]); }
    assert(seq!['t', 'q', 'u', 'a', 'd'] != "pulse"@) by { assert(seq!['t', 'q', 'u', 'a', 'd'][0] != "pulse"@[0]); }
    assert(seq!['t', 'q', 'u', 'a', 'd'] != "range"@) by { assert(seq!['t', 'q', 'u', 'a', 'd'][0] != "range"@[0]); }
    assert(seq!['t', 'q', 'u', 'a', 'd'] != "round"@) by { assert(seq!['t', 'q', 'u', 'a', 'd'][0] != "round"@[0]); }
    assert(seq!['t', 'q', 'u', 'a', 'd'] != "sinc'"@) by { assert(seq!['t', 'q', 'u', 'a', 'd'][0] != "sinc'"@[0]); }
    assert(seq!['t', 'q', 'u', 'a', 'd'] != "sine'"@) by { assert(seq!['t', 'q', 'u', 'a', 'd'][0] != "sine'"@[0]); }
    assert(seq!['t', 'q', 'u', 'a', 'd'] != "tline"@) by { assert(seq!['t', 'q', 'u', 'a', 'd'][1] != "tline"@[1]); }
    assert(spec_named_op(seq!['t', 'q', 'u', 'a', 'd']) == Some(NamedOp::Tquad));
    assert(seq!['u', 'n', 'i', 'e', 'x', 'p'] =~= "uniexp"@);
    assert(seq!['u', 'n', 'i', 'e', 'x', 'p'] != "amp2db"@) by { assert(seq!['u', 'n', 'i', 'e', 'x', 'p'][0] != "amp2db"@[0]); }
    assert(seq!['u', 'n', 'i', 'e', 'x', 'p'] != "circle"@) by { assert(seq!['u', 'n', 'i', 'e', 'x', 'p'][0] != "circle"@[0]); }
    assert(seq!['u', 'n', 'i', 'e', 'x', 'p'] != "cosine"@) by { assert(seq!['u', 'n', 'i', 'e', 'x', 'p'][0] != "cosine"@[0]); }
    assert(seq!['u', 'n', 'i', 'e', 'x', 'p'] != "db2amp"@) by { assert(seq!['u', 'n', 'i', 'e', 'x', 'p'][0] != "db2amp"@[0]); }
    assert(seq!['u', 'n', 'i', 'e', 'x', 'p'] != "dmetro"@) by { assert(seq!['u', 'n', 'i', 'e', 'x', 'p'][0] != "dmetro"@[0]); }
    assert(seq!['u', 'n', 'i', 'e', 'x', 'p'] != "expexp"@) by { assert(seq!['u', 'n', 'i', 'e', 'x', 'p'][0] != "expexp"@[0]); }
    assert(seq!['u', 'n', 'i', 'e', 'x', 'p'] != "explin"@) by { assert(seq!['u', 'n', 'i', 'e', 'x', 'p'][0] != "explin"@[0]); }
    assert(seq!['u', 'n', 'i', 'e', 'x', 'p'] != "linexp"@) by { assert(seq!['u', 'n', 'i', 'e', 'x', 'p'][0] != "linexp"@[0]); }
    assert(seq!['u', 'n', 'i', 'e', 'x', 'p'] != "linlin"@) by { assert(seq!['u', 'n', 'i', 'e', 'x', 'p'][0] != "linlin"@[0]); }
    assert(spec_named_op(seq!['u', 'n', 'i', 'e', 'x', 'p']) == Some(NamedOp::Uniexp));
    assert(seq!['u', 'n', 'i', 't'] =~= "unit"@);
    assert(seq!['u', 'n', 'i', 't'] != "adsr"@) by { assert(seq!['u', 'n', 'i', 't'][0] != "adsr"@[0]); }
    assert(seq!['u', 'n', 'i', 't'] != "a2db"@) by { assert(seq!['u', 'n', 'i', 't'][0] != "a2db"@[0]); }
    assert(seq!['u', 'n', 'i', 't'] != "clip"@) by { assert(seq!['u', 'n', 'i', 't'][0] != "clip"@[0]); }
    assert(seq!['u', 'n', 'i', 't'] != "cos'"@) by { assert(seq!['u', 'n', 'i', 't'][0] != "cos'"@[0]); }
    assert(seq!['u', 'n', 'i', 't'] != "cosh"@) by { assert(seq!['u', 'n', 'i', 't'][0] != "cosh"@[0]); }
    assert(seq!['u', 'n', 'i', 't'] != "db2a"@) by { assert(seq!['u', 'n', 'i', 't'][0] != "db2a"@[0]); }
    assert(seq!['u', 'n', 'i', 't'] != "pan1"@) by { assert(seq!['u', 'n', 'i', 't'][0] != "pan1"@[0]); }
    assert(seq!['u', 'n', 'i', 't'] != "pan2"@) by { assert(seq!['u', 'n', 'i', 't'][0] != "pan2"@[0]); }
    assert(seq!['u', 'n', 'i', 't'] != "panx"@) by { assert(seq!['u', 'n', 'i', 't'][0] != "panx"@[0]); }
    assert(seq!['u', 'n', 'i', 't'] != "sin'"@) by { assert(seq!['u', 'n', 'i', 't'][0] != "sin'"@[0]); }
    assert(seq!['u', 'n', 'i', 't'] != "sinc"@) by { assert(seq!['u', 'n', 'i', 't'][0] != "sinc"@[0]); }
    assert(seq!['u', 'n', 'i', 't'] != "sine"@) by { assert(seq!['u', 'n', 'i', 't'][0] != "sine"@[0]); }
    assert(seq!['u', 'n', 'i', 't'] != "sinh"@) by { assert(seq!['u', 'n', 'i', 't'][0] != "sinh"@[0]); }
    assert(seq!['u', 'n', 'i', 't'] != "swap"@) by { assert(seq!['u', 'n', 'i', 't'][0] != "swap"@[0]); }
    assert(seq!['u', 'n', 'i', 't'] != "tan'"@) by { assert(seq!['u', 'n', 'i', 't'][0] != "tan'"@[0]); }
    assert(seq!['u', 'n', 'i', 't'] != "tanh"@) by { assert(seq!['u', 'n', 'i', 't'][0] != "tanh"@[0]); }
    assert(spec_named_op(seq!['u', 'n', 'i', 't']) == Some(NamedOp::Unit));
    assert(seq!['w'] =~= "w"@);
    assert(seq!['w'] != "*"@) by { assert(seq!['w'][0] != "*"@[0]); }
    assert(seq!['w'] != "+"@) by { assert(seq!['w'][0] != "+"@[0]); }
    assert(seq!['w'] != "-"@) by { assert(seq!['w'][0] != "-"@[0]); }
    assert(seq!['w'] != "/"@) by { assert(seq!['w'][0] != "/"@[0]); }
    assert(seq!['w'] != "\\"@) by { assert(seq!['w'][0] != "\\"@[0]); }
    assert(seq!['w'] != "^"@) by { assert(seq!['w'][0] != "^"@[0]); }
    assert(seq!['w'] != "%"@) by { assert(seq!['w'][0] != "%"@[0]); }
    assert(seq!['w'] != "c"@) by { assert(seq!['w'][0] != "c"@[0]); }
    assert(seq!['w'] != "h"@) by { assert(seq!['w'][0] != "h"@[0]); }
    assert(seq!['w'] != "l"@) by { assert(seq!['w'][0] != "l"@[0]); }
    assert(seq!['w'] != "m"@) by { assert(seq!['w'][0] != "m"@[0]); }
    assert(seq!['w'] != "#"@) by { assert(seq!['w'][0] != "#"@[0]); }
    assert(seq!['w'] != "n"@) by { assert(seq!['w'][0] != "n"@[0]); }
    assert(seq!['w'] != "p"@) by { assert(seq!['w'][0] != "p"@[0]); }
    assert(seq!['w'] != "q"@) by { assert(seq!['w'][0] != "q"@[0]); }
    assert(seq!['w'] != "r"@) by { assert(seq!['w'][0] != "r"@[0]); }
    assert(seq!['w'] != "s"@) by { assert(seq!['w'][0] != "s"@[0]); }
    assert(seq!['w'] != "t"@) by { assert(seq!['w'][0] != "t"@[0]); }
    assert(spec_named_op(seq!['w']) == Some(NamedOp::Phasor));
    assert(seq!['w', 'a', 'h'] =~= "wah"@);
    assert(seq!['w', 'a', 'h'] != "mul"@) by { assert(seq!['w', 'a', 'h'][0] != "mul"@[0]); }
    assert(seq!['w', 'a', 'h'] != "add"@) by { assert(seq!['w', 'a', 'h'][0] != "add"@[0]); }
    assert(seq!['w', 'a', 'h'] != "sub"@) by { assert(seq!['w', 'a', 'h'][0] != "sub"@[0]); }
    assert(seq!['w', 'a', 'h'] != "div"@) by { assert(seq!['w', 'a', 'h'][0] != "div"@[0]); }
    assert(seq!['w', 'a', 'h'] != "pow"@) by { assert(seq!['w', 'a', 'h'][0] != "pow"@[0]); }
    assert(seq!['w', 'a', 'h'] != "mod"@) by { assert(seq!['w', 'a', 'h'][0] != "mod"@[0]); }
    assert(seq!['w', 'a', 'h'] != "cos"@) by { assert(seq!['w', 'a', 'h'][0] != "cos"@[0]); }
    assert(seq!['w', 'a', 'h'] != "dmh"@) by { assert(seq!['w', 'a', 'h'][0] != "dmh"@[0]); }
    assert(seq!['w', 'a', 'h'] != "dup"@) by { assert(seq!['w', 'a', 'h'][0] != "dup"@[0]); }
    assert(seq!['w', 'a', 'h'] != "exp"@) by { assert(seq!['w', 'a', 'h'][0] != "exp"@[0]); }
    assert(seq!['w', 'a', 'h'] != "f2m"@) by { assert(seq!['w', 'a', 'h'][0] != "f2m"@[0]); }
    assert(seq!['w', 'a', 'h'] != "hpf"@) by { assert(seq!['w', 'a', 'h'][0] != "hpf"@[0]); }
    assert(seq!['w', 'a', 'h'] != "lpf"@) by { assert(seq!['w', 'a', 'h'][0] != "lpf"@[0]); }
    assert(seq!['w', 'a', 'h'] != "m2f"@) by { assert(seq!['w', 'a', 'h'][0] != "m2f"@[0]); }
    assert(seq!['w', 'a', 'h'] != "max"@) by { assert(seq!['w', 'a', 'h'][0] != "max"@[0]); }
    assert(seq!['w', 'a', 'h'] != "min"@) by { assert(seq!['w', 'a', 'h'][0] != "min"@[0]); }
    assert(seq!['w', 'a', 'h'] != "tau"@) by { assert(seq!['w', 'a', 'h'][0] != "tau"@[0]); }
    assert(seq!['w', 'a', 'h'] != "pop"@) by { assert(seq!['w', 'a', 'h'][0] != "pop"@[0]); }
    assert(seq!['w', 'a', 'h'] != "rot"@) by { assert(seq!['w', 'a', 'h'][0] != "rot"@[0]); }
    assert(seq!['w', 'a', 'h'] != "saw"@) by { assert(seq!['w', 'a', 'h'][0] != "saw"@[0]); }
    assert(seq!['w', 'a', 'h'] != "ssh"@) by { assert(seq!['w', 'a', 'h'][0] != "ssh"@[0]); }
    assert(seq!['w', 'a', 'h'] != "sin"@) by { assert(seq!['w', 'a', 'h'][0] != "sin"@[0]); }
    assert(seq!['w', 'a', 'h'] != "st1"@) by { assert(seq!['w', 'a', 'h'][0] != "st1"@[0]); }
    assert(seq!['w', 'a', 'h'] != "tan"@) by { assert(seq!['w', 'a', 'h'][0] != "tan"@[0]); }
    assert(seq!['w', 'a', 'h'] != "tri"@) by { assert(seq!['w', 'a', 'h'][0] != "tri"@[0]); }
    assert(spec_named_op(seq!['w', 'a', 'h']) == Some(NamedOp::Wah));
    assert(seq!['w', 'r', 'a', 'p'] =~= "wrap"@);
    assert(seq!['w', 'r', 'a', 'p'] != "adsr"@) by { assert(seq!['w', 'r', 'a', 'p'][0] != "adsr"@[0]); }
    assert(seq!['w', 'r', 'a', 'p'] != "a2db"@) by { assert(seq!['w', 'r', 'a', 'p'][0] != "a2db"@[0]); }
    assert(seq!['w', 'r', 'a', 'p'] != "clip"@) by { assert(seq!['w', 'r', 'a', 'p'][0] != "clip"@[0]); }
    assert(seq!['w', 'r', 'a', 'p'] != "cos'"@) by { assert(seq!['w', 'r', 'a', 'p'][0] != "cos'"@[0]); }
    assert(seq!['w', 'r', 'a', 'p'] != "cosh"@) by { assert(seq!['w', 'r', 'a', 'p'][0] != "cosh"@[0]); }
    assert(seq!['w', 'r', 'a', 'p'] != "db2a"@) by { assert(seq!['w', 'r', 'a', 'p'][0] != "db2a"@[0]); }
    assert(seq!['w', 'r', 'a', 'p'] != "pan1"@) by { assert(seq!['w', 'r', 'a', 'p'][0] != "pan1"@[0]); }
    assert(seq!['w', 'r', 'a', 'p'] != "pan2"@) by { assert(seq!['w', 'r', 'a', 'p'][0] != "pan2"@[0]); }
    assert(seq!['w', 'r', 'a', 'p'] != "panx"@) by { assert(seq!['w', 'r', 'a', 'p'][0] != "panx"@[0]); }
    assert(seq!['w', 'r', 'a', 'p'] != "sin'"@) by { assert(seq!['w', 'r', 'a', 'p'][0] != "sin'"@[0]); }
    assert(seq!['w', 'r', 'a', 'p'] != "sinc"@) by { assert(seq!['w', 'r', 'a', 'p'][0] != "sinc"@[0]); }
    assert(seq!['w', 'r', 'a', 'p'] != "sine"@) by { assert(seq!['w', 'r', 'a', 'p'][0] != "sine"@[0]); }
    assert(seq!['w', 'r', 'a', 'p'] != "sinh"@) by { assert(seq!['w', 'r', 'a', 'p'][0] != "sinh"@[0]); }
    assert(seq!['w', 'r', 'a', 'p'] != "swap"@) by { assert(seq!['w', 'r', 'a', 'p'][0] != "swap"@[0]); }
    assert(seq!['w', 'r', 'a', 'p'] != "tan'"@) by { assert(seq!['w', 'r', 'a', 'p'][0] != "tan'"@[0]); }
    assert(seq!['w', 'r', 'a', 'p'] != "tanh"@) by { assert(seq!['w', 'r', 'a', 'p'][0] != "tanh"@[0]); }
    assert(seq!['w', 'r', 'a', 'p'] != "unit"@) by { assert(seq!['w', 'r', 'a', 'p'][0] != "unit"@[0]); }
    assert(spec_named_op(seq!['w', 'r', 'a', 'p']) == Some(NamedOp::Wrap));
    assert forall|i: int| 0 <= i < op_words(NamedOp::Tquad).len() implies spec_named_op(#[trigger] op_words(NamedOp::Tquad)[i]) == Some(NamedOp::Tquad) by {}
    assert forall|i: int| 0 <= i < op_words(NamedOp::Uniexp).len() implies spec_named_op(#[trigger] op_words(NamedOp::Uniexp)[i]) == Some(NamedOp::Uniexp) by {}
    assert forall|i: int| 0 <= i < op_words(NamedOp::Unit).len() implies spec_named_op(#[trigger] op_words(NamedOp::Unit)[i]) == Some(NamedOp::Unit) by {}
    assert forall|i: int| 0 <= i < op_words(NamedOp::Phasor).len() implies spec_named_op(#[trigger] op_words(NamedOp::Phasor)[i]) == Some(NamedOp::Phasor) by {}
    assert forall|i: int| 0 <= i < op_words(NamedOp::Wah).len() implies spec_named_op(#[trigger] op_words(NamedOp::Wah)[i]) == Some(NamedOp::Wah) by {}
    assert forall|i: int| 0 <= i < op_words(NamedOp::Wrap).len() implies spec_named_op(#[trigger] op_words(NamedOp::Wrap)[i]) == Some(NamedOp::Wrap) by {}
}

/// Each word that the vocabulary lists for an op names that op.
pub proof fn lemma_listed_words_name_their_op(op: NamedOp, i: int)
    requires
        0 <= i < op_words(op).len(),
    ensures
        spec_named_op(op_words(op)[i]) == Some(op),
{
    match op {
        NamedOp::Mul => lemma_listed_words_part0(),
        NamedOp::Add => lemma_listed_words_part0(),
        NamedOp::Sub => lemma_listed_words_part0(),
        NamedOp::Div => lemma_listed_words_part0(),
        NamedOp::Recip => lemma_listed_words_part0(),
        NamedOp::Pow => lemma_listed_words_part0(),
        NamedOp::Mod => lemma_listed_words_part0(),
        NamedOp::Adsr => lemma_listed_words_part0(),
        NamedOp::Amp2db => lemma_listed_words_part1(),
        NamedOp::CosineOsc => lemma_listed_words_part1(),
        NamedOp::CosineOscFast => lemma_listed_words_part1(),
        NamedOp::Cheb2 => lemma_listed_words_part1(),
        NamedOp::Cheb3 => lemma_listed_words_part1(),
        NamedOp::Cheb4 => lemma_listed_words_part1(),
        NamedOp::Cheb5 => lemma_listed_words_part1(),
        NamedOp::Cheb6 => lemma_listed_words_part1(),
        NamedOp::Circle => lemma_listed_words_part2(),
        NamedOp::Clamp => lemma_listed_words_part2(),
        NamedOp::Clip => lemma_listed_words_part2(),
        NamedOp::Cos => lemma_listed_words_part2(),
        NamedOp::CosFast => lemma_listed_words_part2(),
        NamedOp::Cosh => lemma_listed_words_part2(),
        NamedOp::Cosine => lemma_listed_words_part2(),
        NamedOp::CosineFast => lemma_listed_words_part2(),
        NamedOp::Cycle => lemma_listed_words_part3(),
        NamedOp::Db2amp => lemma_listed_words_part3(),
        NamedOp::Dmetro => lemma_listed_words_part3(),
        NamedOp::DmetroHold => lemma_listed_words_part3(),
        NamedOp::Dup => lemma_listed_words_part3(),
        NamedOp::Exp => lemma_listed_words_part3(),
        NamedOp::Biexp => lemma_listed_words_part3(),
        NamedOp::Expexp => lemma_listed_words_part3(),
        NamedOp::Explin => lemma_listed_words_part4(),
        NamedOp::Freq2midi => lemma_listed_words_part4(),
        NamedOp::Bqbpf => lemma_listed_words_part4(),
        NamedOp::Bqhpf => lemma_listed_words_part4(),
        NamedOp::Hpf => lemma_listed_words_part4(),
        NamedOp::Impulse => lemma_listed_words_part4(),
        NamedOp::Input => lemma_listed_words_part4(),
        NamedOp::Bqlpf => lemma_listed_words_part4(),
        NamedOp::Linexp => lemma_listed_words_part5(),
        NamedOp::Project => lemma_listed_words_part5(),
        NamedOp::Lpf => lemma_listed_words_part5(),
        NamedOp::Metro => lemma_listed_words_part5(),
        NamedOp::Midi2freq => lemma_listed_words_part5(),
        NamedOp::Max => lemma_listed_words_part5(),
        NamedOp::MetroHold => lemma_listed_words_part5(),
        NamedOp::Min => lemma_listed_words_part5(),
        NamedOp::WhiteNoise => lemma_listed_words_part6(),
        NamedOp::Bqnotch => lemma_listed_words_part6(),
        NamedOp::PulseOsc => lemma_listed_words_part6(),
        NamedOp::Pan1 => lemma_listed_words_part6(),
        NamedOp::Pan2 => lemma_listed_words_part6(),
        NamedOp::Panx => lemma_listed_words_part6(),
        NamedOp::Pi => lemma_listed_words_part6(),
        NamedOp::Tau => lemma_listed_words_part6(),
        NamedOp::Pitch => lemma_listed_words_part7(),
        NamedOp::Pop => lemma_listed_words_part7(),
        NamedOp::Prime => lemma_listed_words_part7(),
        NamedOp::Pulse => lemma_listed_words_part7(),
        NamedOp::Quantize => lemma_listed_words_part7(),
        NamedOp::Range => lemma_listed_words_part7(),
        NamedOp::Rot => lemma_listed_words_part7(),
        NamedOp::Round => lemma_listed_words_part7(),
        NamedOp::SineOsc => lemma_listed_words_part8(),
        NamedOp::SineOscFast => lemma_listed_words_part8(),
        NamedOp::Saw => lemma_listed_words_part8(),
        NamedOp::SampleAndHold => lemma_listed_words_part8(),
        NamedOp::Ssh => lemma_listed_words_part8(),
        NamedOp::Silence => lemma_listed_words_part8(),
        NamedOp::Sin => lemma_listed_words_part8(),
        NamedOp::SinFast => lemma_listed_words_part8(),
        NamedOp::Sinc => lemma_listed_words_part9(),
        NamedOp::SincFast => lemma_listed_words_part9(),
        NamedOp::Sine => lemma_listed_words_part9(),
        NamedOp::SineFast => lemma_listed_words_part9(),
        NamedOp::Sinh => lemma_listed_words_part9(),
        NamedOp::SpectralShuffle => lemma_listed_words_part9(),
        NamedOp::St1 => lemma_listed_words_part9(),
        NamedOp::SpectralReverse => lemma_listed_words_part9(),
        NamedOp::Sr => lemma_listed_words_part10(),
        NamedOp::Swap => lemma_listed_words_part10(),
        NamedOp::TriangleOsc => lemma_listed_words_part10(),
        NamedOp::Tan => lemma_listed_words_part10(),
        NamedOp::TanFast => lemma_listed_words_part10(),
        NamedOp::Tanh => lemma_listed_words_part10(),
        NamedOp::Tri => lemma_listed_words_part10(),
        NamedOp::Tline => lemma_listed_words_part10(),
        NamedOp::Tquad => lemma_listed_words_part11(),
        NamedOp::Uniexp => lemma_listed_words_part11(),
        NamedOp::Unit => lemma_listed_words_part11(),
        NamedOp::Phasor => lemma_listed_words_part11(),
        NamedOp::Wah => lemma_listed_words_part11(),
        NamedOp::Wrap => lemma_listed_words_part11(),
    }
}

/// A word names an op only where the vocabulary lists it for that op.
#[verifier::rlimit(50)]
pub proof fn lemma_named_words_are_listed(w: Seq<char>, op: NamedOp)
    requires
        spec_named_op(w) == Some(op),
    ensures
        op_words(op).contains(w),
{
    if w == "*"@ || w == "mul"@ {
        reveal_strlit("*");
        reveal_strlit("mul");
        if w == "*"@ {
            assert(seq!['*'] =~= "*"@);
            assert(op_words(op)[0] == w);
        }
        if w == "mul"@ {
            assert(seq!['m', 'u', 'l'] =~= "mul"@);
            assert(op_words(op)[1] == w);
        }
    } else if w == "+"@ || w == "add"@ {
        reveal_strlit("+");
        reveal_strlit("add");
        if w == "+"@ {
            assert(seq!['+'] =~= "+"@);
            assert(op_words(op)[0] == w);
        }
        if w == "add"@ {
            assert(seq!['a', 'd', 'd'] =~= "add"@);
            assert(op_words(op)[1] == w);
        }
    } else if w == "-"@ || w == "sub"@ {
        reveal_strlit("-");
        reveal_strlit("sub");
        if w == "-"@ {
            assert(seq!['-'] =~= "-"@);
            assert(op_words(op)[0] == w);
        }
        if w == "sub"@ {
            assert(seq!['s', 'u', 'b'] =~= "sub"@);
            assert(op_words(op)[1] == w);
        }
    } else if w == "/"@ || w == "div"@ {
        reveal_strlit("/");
        reveal_strlit("div");
        if w == "/"@ {
            assert(seq!['/'] =~= "/"@);
            assert(op_words(op)[0] == w);
        }
        if w == "div"@ {
            assert(seq!['d', 'i', 'v'] =~= "div"@);
            assert(op_words(op)[1] == w);
        }
    } else if w == "\\"@ {
        reveal_strlit("\\");
        if w == "\\"@ {
            assert(seq!['\\'] =~= "\\"@);
            assert(op_words(op)[0] == w);
        }
    } else if w == "^"@ || w == "pow"@ {
        reveal_strlit("^");
        reveal_strlit("pow");
        if w == "^"@ {
            assert(seq!['^'] =~= "^"@);
            assert(op_words(op)[0] == w);
        }
        if w == "pow"@ {
            assert(seq!['p', 'o', 'w'] =~= "pow"@);
            assert(op_words(op)[1] == w);
        }
    } else if w == "%"@ || w == "mod"@ {
        reveal_strlit("%");
        reveal_strlit("mod");
        if w == "%"@ {
            assert(seq!['%'] =~= "%"@);
            assert(op_words(op)[0] == w);
        }
        if w == "mod"@ {
            assert(seq!['m', 'o', 'd'] =~= "mod"@);
            assert(op_words(op)[1] == w);
        }
    } else if w == "adsr"@ {
        reveal_strlit("adsr");
        if w == "adsr"@ {
            assert(seq!['a', 'd', 's', 'r'] =~= "adsr"@);
            assert(op_words(op)[0] == w);
        }
    } else if w == "amp2db"@ || w == "a2db"@ {
        reveal_strlit("amp2db");
        reveal_strlit("a2db");
        if w == "amp2db"@ {
            assert(seq!['a', 'm', 'p', '2', 'd', 'b'] =~= "amp2db"@);
            assert(op_words(op)[0] == w);
        }
        if w == "a2db"@ {
            assert(seq!['a', '2', 'd', 'b'] =~= "a2db"@);
            assert(op_words(op)[1] == w);
        }
    } else if w == "c"@ {
        reveal_strlit("c");
        if w == "c"@ {
            assert(seq!['c'] =~= "c"@);
            assert(op_words(op)[0] == w);
        }
    } else if w == "c'"@ {
        reveal_strlit("c'");
        if w == "c'"@ {
            assert(seq!['c', '\''] =~= "c'"@);
            assert(op_words(op)[0] == w);
        }
    } else if w == "cheb2"@ {
        reveal_strlit("cheb2");
        if w == "cheb2"@ {
            assert(seq!['c', 'h', 'e', 'b', '2'] =~= "cheb2"@);
            assert(op_words(op)[0] == w);
        }
    } else if w == "cheb3"@ {
        reveal_strlit("cheb3");
        if w == "cheb3"@ {
            assert(seq!['c', 'h', 'e', 'b', '3'] =~= "cheb3"@);
            assert(op_words(op)[0] == w);
        }
    } else if w == "cheb4"@ {
        reveal_strlit("cheb4");
        if w == "cheb4"@ {
            assert(seq!['c', 'h', 'e', 'b', '4'] =~= "cheb4"@);
            assert(op_words(op)[0] == w);
        }
    } else if w == "cheb5"@ {
        reveal_strlit("cheb5");
        if w == "cheb5"@ {
            assert(seq!['c', 'h', 'e', 'b', '5'] =~= "cheb5"@);
            assert(op_words(op)[0] == w);
        }
    } else if w == "cheb6"@ {
        reveal_strlit("cheb6");
        if w == "cheb6"@ {
            assert(seq!['c', 'h', 'e', 'b', '6'] =~= "cheb6"@);
            assert(op_words(op)[0] == w);
        }
    } else if w == "circle"@ {
        reveal_strlit("circle");
        if w == "circle"@ {
            assert(seq!['c', 'i', 'r', 'c', 'l', 'e'] =~= "circle"@);
            assert(op_words(op)[0] == w);
        }
    } else if w == "clamp"@ {
        reveal_strlit("clamp");
        if w == "clamp"@ {
            assert(seq!['c', 'l', 'a', 'm', 'p'] =~= "clamp"@);
            assert(op_words(op)[0] == w);
        }
    } else if w == "clip"@ {
        reveal_strlit("clip");
        if w == "clip"@ {
            assert(seq!['c', 'l', 'i', 'p'] =~= "clip"@);
            assert(op_words(op)[0] == w);
        }
    } else if w == "cos"@ {
        reveal_strlit("cos");
        if w == "cos"@ {
            assert(seq!['c', 'o', 's'] =~= "cos"@);
            assert(op_words(op)[0] == w);
        }
    } else if w == "cos'"@ {
        reveal_strlit("cos'");
        if w == "cos'"@ {
            assert(seq!['c', 'o', 's', '\''] =~= "cos'"@);
            assert(op_words(op)[0] == w);
        }
    } else if w == "cosh"@ {
        reveal_strlit("cosh");
        if w == "cosh"@ {
            assert(seq!['c', 'o', 's', 'h'] =~= "cosh"@);
            assert(op_words(op)[0] == w);
        }
    } else if w == "cosine"@ {
        reveal_strlit("cosine");
        if w == "cosine"@ {
            assert(seq!['c', 'o', 's', 'i', 'n', 'e'] =~= "cosine"@);
            assert(op_words(op)[0] == w);
        }
    } else if w == "cosine'"@ {
        reveal_strlit("cosine'");
        if w == "cosine'"@ {
            assert(seq!['c', 'o', 's', 'i', 'n', 'e', '\''] =~= "cosine'"@);
            assert(op_words(op)[0] == w);
        }
    } else if w == "cycle"@ || w == "cy"@ {
        reveal_strlit("cycle");
        reveal_strlit("cy");
        if w == "cycle"@ {
            assert(seq!['c', 'y', 'c', 'l', 'e'] =~= "cycle"@);
            assert(op_words(op)[0] == w);
        }
        if w == "cy"@ {
            assert(seq!['c', 'y'] =~= "cy"@);
            assert(op_words(op)[1] == w);
        }
    } else if w == "db2amp"@ || w == "db2a"@ {
        reveal_strlit("db2amp");
        reveal_strlit("db2a");
        if w == "db2amp"@ {
            assert(seq!['d', 'b', '2', 'a', 'm', 'p'] =~= "db2amp"@);
            assert(op_words(op)[0] == w);
        }
        if w == "db2a"@ {
            assert(seq!['d', 'b', '2', 'a'] =~= "db2a"@);
            assert(op_words(op)[1] == w);
        }
    } else if w == "dm"@ || w == "dmetro"@ {
        reveal_strlit("dm");
        reveal_strlit("dmetro");
        if w == "dm"@ {
            assert(seq!['d', 'm'] =~= "dm"@);
            assert(op_words(op)[0] == w);
        }
        if w == "dmetro"@ {
            assert(seq!['d', 'm', 'e', 't', 'r', 'o'] =~= "dmetro"@);
            assert(op_words(op)[1] == w);
        }
    } else if w == "dmh"@ || w == "dmetro_hold"@ {
        reveal_strlit("dmh");
        reveal_strlit("dmetro_hold");
        if w == "dmh"@ {
            assert(seq!['d', 'm', 'h'] =~= "dmh"@);
            assert(op_words(op)[0] == w);
        }
        if w == "dmetro_hold"@ {
            assert(seq!['d', 'm', 'e', 't', 'r', 'o', '_', 'h', 'o', 'l', 'd'] =~= "dmetro_hold"@);
            assert(op_words(op)[1] == w);
        }
    } else if w == "dup"@ {
        reveal_strlit("dup");
        if w == "dup"@ {
            assert(seq!['d', 'u', 'p'] =~= "dup"@);
            assert(op_words(op)[0] == w);
        }
    } else if w == "exp"@ {
        reveal_strlit("exp");
        if w == "exp"@ {
            assert(seq!['e', 'x', 'p'] =~= "exp"@);
            assert(op_words(op)[0] == w);
        }
    } else if w == "biexp"@ {
        reveal_strlit("biexp");
        if w == "biexp"@ {
            assert(seq!['b', 'i', 'e', 'x', 'p'] =~= "biexp"@);
            assert(op_words(op)[0] == w);
        }
    } else if w == "expexp"@ {
        reveal_strlit("expexp");
        if w == "expexp"@ {
            assert(seq!['e', 'x', 'p', 'e', 'x', 'p'] =~= "expexp"@);
            assert(op_words(op)[0] == w);
        }
    } else if w == "explin"@ {
        reveal_strlit("explin");
        if w == "explin"@ {
            assert(seq!['e', 'x', 'p', 'l', 'i', 'n'] =~= "explin"@);
            assert(op_words(op)[0] == w);
        }
    } else if w == "f2m"@ || w == "freq2midi"@ {
        reveal_strlit("f2m");
        reveal_strlit("freq2midi");
        if w == "f2m"@ {
            assert(seq!['f', '2', 'm'] =~= "f2m"@);
            assert(op_words(op)[0] == w);
        }
        if w == "freq2midi"@ {
            assert(seq!['f', 'r', 'e', 'q', '2', 'm', 'i', 'd', 'i'] =~= "freq2midi"@);
            assert(op_words(op)[1] == w);
        }
    } else if w == "bp"@ || w == "bqbpf"@ {
        reveal_strlit("bp");
        reveal_strlit("bqbpf");
        if w == "bp"@ {
            assert(seq!['b', 'p'] =~= "bp"@);
            assert(op_words(op)[0] == w);
        }
        if w == "bqbpf"@ {
            assert(seq!['b', 'q', 'b', 'p', 'f'] =~= "bqbpf"@);
            assert(op_words(op)[1] == w);
        }
    } else if w == "h"@ || w == "bqhpf"@ {
        reveal_strlit("h");
        reveal_strlit("bqhpf");
        if w == "h"@ {
            assert(seq!['h'] =~= "h"@);
            assert(op_words(op)[0] == w);
        }
        if w == "bqhpf"@ {
            assert(seq!['b', 'q', 'h', 'p', 'f'] =~= "bqhpf"@);
            assert(op_words(op)[1] == w);
        }
    } else if w == "hpf"@ {
        reveal_strlit("hpf");
        if w == "hpf"@ {
            assert(seq!['h', 'p', 'f'] =~= "hpf"@);
            assert(op_words(op)[0] == w);
        }
    } else if w == "impulse"@ {
        reveal_strlit("impulse");
        if w == "impulse"@ {
            assert(seq!['i', 'm', 'p', 'u', 'l', 's', 'e'] =~= "impulse"@);
            assert(op_words(op)[0] == w);
        }
    } else if w == "in"@ || w == "input"@ {
        reveal_strlit("in");
        reveal_strlit("input");
        if w == "in"@ {
            assert(seq!['i', 'n'] =~= "in"@);
            assert(op_words(op)[0] == w);
        }
        if w == "input"@ {
            assert(seq!['i', 'n', 'p', 'u', 't'] =~= "input"@);
            assert(op_words(op)[1] == w);
        }
    } else if w == "l"@ || w == "bqlpf"@ {
        reveal_strlit("l");
        reveal_strlit("bqlpf");
        if w == "l"@ {
            assert(seq!['l'] =~= "l"@);
            assert(op_words(op)[0] == w);
        }
        if w == "bqlpf"@ {
            assert(seq!['b', 'q', 'l', 'p', 'f'] =~= "bqlpf"@);
            assert(op_words(op)[1] == w);
        }
    } else if w == "linexp"@ {
        reveal_strlit("linexp");
        if w == "linexp"@ {
            assert(seq!['l', 'i', 'n', 'e', 'x', 'p'] =~= "linexp"@);
            assert(op_words(op)[0] == w);
        }
    } else if w == "linlin"@ || w == "project"@ {
        reveal_strlit("linlin");
        reveal_strlit("project");
        if w == "linlin"@ {
            assert(seq!['l', 'i', 'n', 'l', 'i', 'n'] =~= "linlin"@);
            assert(op_words(op)[0] == w);
        }
        if w == "project"@ {
            assert(seq!['p', 'r', 'o', 'j', 'e', 'c', 't'] =~= "project"@);
            assert(op_words(op)[1] == w);
        }
    } else if w == "lpf"@ {
        reveal_strlit("lpf");
        if w == "lpf"@ {
            assert(seq!['l', 'p', 'f'] =~= "lpf"@);
            assert(op_words(op)[0] == w);
        }
    } else if w == "m"@ || w == "metro"@ {
        reveal_strlit("m");
        reveal_strlit("metro");
        if w == "m"@ {
            assert(seq!['m'] =~= "m"@);
            assert(op_words(op)[0] == w);
        }
        if w == "metro"@ {
            assert(seq!['m', 'e', 't', 'r', 'o'] =~= "metro"@);
            assert(op_words(op)[1] == w);
        }
    } else if w == "m2f"@ || w == "midi2freq"@ || w == "#"@ {
        reveal_strlit("m2f");
        reveal_strlit("midi2freq");
        reveal_strlit("#");
        if w == "m2f"@ {
            assert(seq!['m', '2', 'f'] =~= "m2f"@);
            assert(op_words(op)[0] == w);
        }
        if w == "midi2freq"@ {
            assert(seq!['m', 'i', 'd', 'i', '2', 'f', 'r', 'e', 'q'] =~= "midi2freq"@);
            assert(op_words(op)[1] == w);
        }
        if w == "#"@ {
            assert(seq!['#'] =~= "#"@);
            assert(op_words(op)[2] == w);
        }
    } else if w == "max"@ {
        reveal_strlit("max");
        if w == "max"@ {
            assert(seq!['m', 'a', 'x'] =~= "max"@);
            assert(op_words(op)[0] == w);
        }
    } else if w == "mh"@ || w == "metro_hold"@ {
        reveal_strlit("mh");
        reveal_strlit("metro_hold");
        if w == "mh"@ {
            assert(seq!['m', 'h'] =~= "mh"@);
            assert(op_words(op)[0] == w);
        }
        if w == "metro_hold"@ {
            assert(seq!['m', 'e', 't', 'r', 'o', '_', 'h', 'o', 'l', 'd'] =~= "metro_hold"@);
            assert(op_words(op)[1] == w);
        }
    } else if w == "min"@ {
        reveal_strlit("min");
        if w == "min"@ {
            assert(seq!['m', 'i', 'n'] =~= "min"@);
            assert(op_words(op)[0] == w);
        }
    } else if w == "n"@ || w == "noise"@ || w == "whiteNoise"@ {
        reveal_strlit("n");
        reveal_strlit("noise");
        reveal_strlit("whiteNoise");
        if w == "n"@ {
            assert(seq!['n'] =~= "n"@);
            assert(op_words(op)[0] == w);
        }
        if w == "noise"@ {
            assert(seq!['n', 'o', 'i', 's', 'e'] =~= "noise"@);
            assert(op_words(op)[1] == w);
        }
        if w == "whiteNoise"@ {
            assert(seq!['w', 'h', 'i', 't', 'e', 'N', 'o', 'i', 's', 'e'] =~= "whiteNoise"@);
            assert(op_words(op)[2] == w);
        }
    } else if w == "notch"@ || w == "bqnotch"@ {
        reveal_strlit("notch");
        reveal_strlit("bqnotch");
        if w == "notch"@ {
            assert(seq!['n', 'o', 't', 'c', 'h'] =~= "notch"@);
            assert(op_words(op)[0] == w);
        }
        if w == "bqnotch"@ {
            assert(seq!['b', 'q', 'n', 'o', 't', 'c', 'h'] =~= "bqnotch"@);
            assert(op_words(op)[1] == w);
        }
    } else if w == "p"@ {
        reveal_strlit("p");
        if w == "p"@ {
            assert(seq!['p'] =~= "p"@);
            assert(op_words(op)[0] == w);
        }
    } else if w == "pan1"@ {
        reveal_strlit("pan1");
        if w == "pan1"@ {
            assert(seq!['p', 'a', 'n', '1'] =~= "pan1"@);
            assert(op_words(op)[0] == w);
        }
    } else if w == "pan2"@ {
        reveal_strlit("pan2");
        if w == "pan2"@ {
            assert(seq!['p', 'a', 'n', '2'] =~= "pan2"@);
            assert(op_words(op)[0] == w);
        }
    } else if w == "panx"@ {
        reveal_strlit("panx");
        if w == "panx"@ {
            assert(seq!['p', 'a', 'n', 'x'] =~= "panx"@);
            assert(op_words(op)[0] == w);
        }
    } else if w == "pi"@ {
        reveal_strlit("pi");
        if w == "pi"@ {
            assert(seq!['p', 'i'] =~= "pi"@);
            assert(op_words(op)[0] == w);
        }
    } else if w == "tau"@ {
        reveal_strlit("tau");
        if w == "tau"@ {
            assert(seq!['t', 'a', 'u'] =~= "tau"@);
            assert(op_words(op)[0] == w);
        }
    } else if w == "pitch"@ {
        reveal_strlit("pitch");
        if w == "pitch"@ {
            assert(seq!['p', 'i', 't', 'c', 'h'] =~= "pitch"@);
            assert(op_words(op)[0] == w);
        }
    } else if w == "pop"@ {
        reveal_strlit("pop");
        if w == "pop"@ {
            assert(seq!['p', 'o', 'p'] =~= "pop"@);
            assert(op_words(op)[0] == w);
        }
    } else if w == "prime"@ {
        reveal_strlit("prime");
        if w == "prime"@ {
            assert(seq!['p', 'r', 'i', 'm', 'e'] =~= "prime"@);
            assert(op_words(op)[0] == w);
        }
    } else if w == "pulse"@ {
        reveal_strlit("pulse");
        if w == "pulse"@ {
            assert(seq!['p', 'u', 'l', 's', 'e'] =~= "pulse"@);
            assert(op_words(op)[0] == w);
        }
    } else if w == "q"@ || w == "quantize"@ {
        reveal_strlit("q");
        reveal_strlit("quantize");
        if w == "q"@ {
            assert(seq!['q'] =~= "q"@);
            assert(op_words(op)[0] == w);
        }
        if w == "quantize"@ {
            assert(seq!['q', 'u', 'a', 'n', 't', 'i', 'z', 'e'] =~= "quantize"@);
            assert(op_words(op)[1] == w);
        }
    } else if w == "r"@ || w == "range"@ {
        reveal_strlit("r");
        reveal_strlit("range");
        if w == "r"@ {
            assert(seq!['r'] =~= "r"@);
            assert(op_words(op)[0] == w);
        }
        if w == "range"@ {
            assert(seq!['r', 'a', 'n', 'g', 'e'] =~= "range"@);
            assert(op_words(op)[1] == w);
        }
    } else if w == "rot"@ {
        reveal_strlit("rot");
        if w == "rot"@ {
            assert(seq!['r', 'o', 't'] =~= "rot"@);
            assert(op_words(op)[0] == w);
        }
    } else if w == "round"@ {
        reveal_strlit("round");
        if w == "round"@ {
            assert(seq!['r', 'o', 'u', 'n', 'd'] =~= "round"@);
            assert(op_words(op)[0] == w);
        }
    } else if w == "s"@ {
        reveal_strlit("s");
        if w == "s"@ {
            assert(seq!['s'] =~= "s"@);
            assert(op_words(op)[0] == w);
        }
    } else if w == "s'"@ {
        reveal_strlit("s'");
        if w == "s'"@ {
            assert(seq!['s', '\''] =~= "s'"@);
            assert(op_words(op)[0] == w);
        }
    } else if w == "saw"@ {
        reveal_strlit("saw");
        if w == "saw"@ {
            assert(seq!['s', 'a', 'w'] =~= "saw"@);
            assert(op_words(op)[0] == w);
        }
    } else if w == "sh"@ || w == "sample&hold"@ {
        reveal_strlit("sh");
        reveal_strlit("sample&hold");
        if w == "sh"@ {
            assert(seq!['s', 'h'] =~= "sh"@);
            assert(op_words(op)[0] == w);
        }
        if w == "sample&hold"@ {
            assert(seq!['s', 'a', 'm', 'p', 'l', 'e', '&', 'h', 'o', 'l', 'd'] =~= "sample&hold"@);
            assert(op_words(op)[1] == w);
        }
    } else if w == "ssh"@ {
        reveal_strlit("ssh");
        if w == "ssh"@ {
            assert(seq!['s', 's', 'h'] =~= "ssh"@);
            assert(op_words(op)[0] == w);
        }
    } else if w == "silence"@ {
        reveal_strlit("silence");
        if w == "silence"@ {
            assert(seq!['s', 'i', 'l', 'e', 'n', 'c', 'e'] =~= "silence"@);
            assert(op_words(op)[0] == w);
        }
    } else if w == "sin"@ {
        reveal_strlit("sin");
        if w == "sin"@ {
            assert(seq!['s', 'i', 'n'] =~= "sin"@);
            assert(op_words(op)[0] == w);
        }
    } else if w == "sin'"@ {
        reveal_strlit("sin'");
        if w == "sin'"@ {
            assert(seq!['s', 'i', 'n', '\''] =~= "sin'"@);
            assert(op_words(op)[0] == w);
        }
    } else if w == "sinc"@ {
        reveal_strlit("sinc");
        if w == "sinc"@ {
            assert(seq!['s', 'i', 'n', 'c'] =~= "sinc"@);
            assert(op_words(op)[0] == w);
        }
    } else if w == "sinc'"@ {
        reveal_strlit("sinc'");
        if w == "sinc'"@ {
            assert(seq!['s', 'i', 'n', 'c', '\''] =~= "sinc'"@);
            assert(op_words(op)[0] == w);
        }
    } else if w == "sine"@ {
        reveal_strlit("sine");
        if w == "sine"@ {
            assert(seq!['s', 'i', 'n', 'e'] =~= "sine"@);
            assert(op_words(op)[0] == w);
        }
    } else if w == "sine'"@ {
        reveal_strlit("sine'");
        if w == "sine'"@ {
            assert(seq!['s', 'i', 'n', 'e', '\''] =~= "sine'"@);
            assert(op_words(op)[0] == w);
        }
    } else if w == "sinh"@ {
        reveal_strlit("sinh");
        if w == "sinh"@ {
            assert(seq!['s', 'i', 'n', 'h'] =~= "sinh"@);
            assert(op_words(op)[0] == w);
        }
    } else if w == "spectral_shuffle"@ {
        reveal_strlit("spectral_shuffle");
        if w == "spectral_shuffle"@ {
            assert(seq!['s', 'p', 'e', 'c', 't', 'r', 'a', 'l', '_', 's', 'h', 'u', 'f', 'f', 'l', 'e'] =~= "spectral_shuffle"@);
            assert(op_words(op)[0] == w);
        }
    } else if w == "st1"@ {
        reveal_strlit("st1");
        if w == "st1"@ {
            assert(seq!['s', 't', '1'] =~= "st1"@);
            assert(op_words(op)[0] == w);
        }
    } else if w == "spectral_reverse"@ {
        reveal_strlit("spectral_reverse");
        if w == "spectral_reverse"@ {
            assert(seq!['s', 'p', 'e', 'c', 't', 'r', 'a', 'l', '_', 'r', 'e', 'v', 'e', 'r', 's', 'e'] =~= "spectral_reverse"@);
            assert(op_words(op)[0] == w);
        }
    } else if w == "sr"@ {
        reveal_strlit("sr");
        if w == "sr"@ {
            assert(seq!['s', 'r'] =~= "sr"@);
            assert(op_words(op)[0] == w);
        }
    } else if w == "swap"@ {
        reveal_strlit("swap");
        if w == "swap"@ {
            assert(seq!['s', 'w', 'a', 'p'] =~= "swap"@);
            assert(op_words(op)[0] == w);
        }
    } else if w == "t"@ {
        reveal_strlit("t");
        if w == "t"@ {
            assert(seq!['t'] =~= "t"@);
            assert(op_words(op)[0] == w);
        }
    } else if w == "tan"@ {
        reveal_strlit("tan");
        if w == "tan"@ {
            assert(seq!['t', 'a', 'n'] =~= "tan"@);
            assert(op_words(op)[0] == w);
        }
    } else if w == "tan'"@ {
        reveal_strlit("tan'");
        if w == "tan'"@ {
            assert(seq!['t', 'a', 'n', '\''] =~= "tan'"@);
            assert(op_words(op)[0] == w);
        }
    } else if w == "tanh"@ {
        reveal_strlit("tanh");
        if w == "tanh"@ {
            assert(seq!['t', 'a', 'n', 'h'] =~= "tanh"@);
            assert(op_words(op)[0] == w);
        }
    } else if w == "tri"@ {
        reveal_strlit("tri");
        if w == "tri"@ {
            assert(seq!['t', 'r', 'i'] =~= "tri"@);
            assert(op_words(op)[0] == w);
        }
    } else if w == "tline"@ {
        reveal_strlit("tline");
        if w == "tline"@ {
            assert(seq!['t', 'l', 'i', 'n', 'e'] =~= "tline"@);
            assert(op_words(op)[0] == w);
        }
    } else if w == "tquad"@ {
        reveal_strlit("tquad");
        if w == "tquad"@ {
            assert(seq!['t', 'q', 'u', 'a', 'd'] =~= "tquad"@);
            assert(op_words(op)[0] == w);
        }
    } else if w == "uniexp"@ {
        reveal_strlit("uniexp");
        if w == "uniexp"@ {
            assert(seq!['u', 'n', 'i', 'e', 'x', 'p'] =~= "uniexp"@);
            assert(op_words(op)[0] == w);
        }
    } else if w == "unit"@ {
        reveal_strlit("unit");
        if w == "unit"@ {
            assert(seq!['u', 'n', 'i', 't'] =~= "unit"@);
            assert(op_words(op)[0] == w);
        }
    } else if w == "w"@ {
        reveal_strlit("w");
        if w == "w"@ {
            assert(seq!['w'] =~= "w"@);
            assert(op_words(op)[0] == w);
        }
    } else if w == "wah"@ {
        reveal_strlit("wah");
        if w == "wah"@ {
            assert(seq!['w', 'a', 'h'] =~= "wah"@);
            assert(op_words(op)[0] == w);
        }
    } else if w == "wrap"@ {
        reveal_strlit("wrap");
        if w == "wrap"@ {
            assert(seq!['w', 'r', 'a', 'p'] =~= "wrap"@);
            assert(op_words(op)[0] == w);
        }
    }
}

/// The op a word names by itself, if any.
#[verifier::rlimit(100)]
pub fn named_op(word: &str) -> (r: Option<NamedOp>)
    ensures
        r == spec_named_op(word@),
{
    if same(word, "*") || same(word, "mul") {
        return Some(NamedOp::Mul);
    }
    if same(word, "+") || same(word, "add") {
        return Some(NamedOp::Add);
    }
    if same(word, "-") || same(word, "sub") {
        return Some(NamedOp::Sub);
    }
    if same(word, "/") || same(word, "div") {
        return Some(NamedOp::Div);
    }
    if same(word, "\\") {
        return Some(NamedOp::Recip);
    }
    if same(word, "^") || same(word, "pow") {
        return Some(NamedOp::Pow);
    }
    if same(word, "%") || same(word, "mod") {
        return Some(NamedOp::Mod);
    }
    if same(word, "adsr") {
        return Some(NamedOp::Adsr);
    }
    if same(word, "amp2db") || same(word, "a2db") {
        return Some(NamedOp::Amp2db);
    }
    if same(word, "c") {
        return Some(NamedOp::CosineOsc);
    }
    if same(word, "c'") {
        return Some(NamedOp::CosineOscFast);
    }
    if same(word, "cheb2") {
        return Some(NamedOp::Cheb2);
    }
    if same(word, "cheb3") {
        return Some(NamedOp::Cheb3);
    }
    if same(word, "cheb4") {
        return Some(NamedOp::Cheb4);
    }
    if same(word, "cheb5") {
        return Some(NamedOp::Cheb5);
    }
    if same(word, "cheb6") {
        return Some(NamedOp::Cheb6);
    }
    if same(word, "circle") {
        return Some(NamedOp::Circle);
    }
    if same(word, "clamp") {
        return Some(NamedOp::Clamp);
    }
    if same(word, "clip") {
        return Some(NamedOp::Clip);
    }
    if same(word, "cos") {
        return Some(NamedOp::Cos);
    }
    if same(word, "cos'") {
        return Some(NamedOp::CosFast);
    }
    if same(word, "cosh") {
        return Some(NamedOp::Cosh);
    }
    if same(word, "cosine") {
        return Some(NamedOp::Cosine);
    }
    if same(word, "cosine'") {
        return Some(NamedOp::CosineFast);
    }
    if same(word, "cycle") || same(word, "cy") {
        return Some(NamedOp::Cycle);
    }
    if same(word, "db2amp") || same(word, "db2a") {
        return Some(NamedOp::Db2amp);
    }
    if same(word, "dm") || same(word, "dmetro") {
        return Some(NamedOp::Dmetro);
    }
    if same(word, "dmh") || same(word, "dmetro_hold") {
        return Some(NamedOp::DmetroHold);
    }
    if same(word, "dup") {
        return Some(NamedOp::Dup);
    }
    if same(word, "exp") {
        return Some(NamedOp::Exp);
    }
    if same(word, "biexp") {
        return Some(NamedOp::Biexp);
    }
    if same(word, "expexp") {
        return Some(NamedOp::Expexp);
    }
    if same(word, "explin") {
        return Some(NamedOp::Explin);
    }
    if same(word, "f2m") || same(word, "freq2midi") {
        return Some(NamedOp::Freq2midi);
    }
    if same(word, "bp") || same(word, "bqbpf") {
        return Some(NamedOp::Bqbpf);
    }
    if same(word, "h") || same(word, "bqhpf") {
        return Some(NamedOp::Bqhpf);
    }
    if same(word, "hpf") {
        return Some(NamedOp::Hpf);
    }
    if same(word, "impulse") {
        return Some(NamedOp::Impulse);
    }
    if same(word, "in") || same(word, "input") {
        return Some(NamedOp::Input);
    }
    if same(word, "l") || same(word, "bqlpf") {
        return Some(NamedOp::Bqlpf);
    }
    if same(word, "linexp") {
        return Some(NamedOp::Linexp);
    }
    if same(word, "linlin") || same(word, "project") {
        return Some(NamedOp::Project);
    }
    if same(word, "lpf") {
        return Some(NamedOp::Lpf);
    }
    if same(word, "m") || same(word, "metro") {
        return Some(NamedOp::Metro);
    }
    if same(word, "m2f") || same(word, "midi2freq") || same(word, "#") {
        return Some(NamedOp::Midi2freq);
    }
    if same(word, "max") {
        return Some(NamedOp::Max);
    }
    if same(word, "mh") || same(word, "metro_hold") {
        return Some(NamedOp::MetroHold);
    }
    if same(word, "min") {
        return Some(NamedOp::Min);
    }
    if same(word, "n") || same(word, "noise") || same(word, "whiteNoise") {
        return Some(NamedOp::WhiteNoise);
    }
    if same(word, "notch") || same(word, "bqnotch") {
        return Some(NamedOp::Bqnotch);
    }
    if same(word, "p") {
        return Some(NamedOp::PulseOsc);
    }
    if same(word, "pan1") {
        return Some(NamedOp::Pan1);
    }
    if same(word, "pan2") {
        return Some(NamedOp::Pan2);
    }
    if same(word, "panx") {
        return Some(NamedOp::Panx);
    }
    if same(word, "pi") {
        return Some(NamedOp::Pi);
    }
    if same(word, "tau") {
        return Some(NamedOp::Tau);
    }
    if same(word, "pitch") {
        return Some(NamedOp::Pitch);
    }
    if same(word, "pop") {
        return Some(NamedOp::Pop);
    }
    if same(word, "prime") {
        return Some(NamedOp::Prime);
    }
    if same(word, "pulse") {
        return Some(NamedOp::Pulse);
    }
    if same(word, "q") || same(word, "quantize") {
        return Some(NamedOp::Quantize);
    }
    if same(word, "r") || same(word, "range") {
        return Some(NamedOp::Range);
    }
    if same(word, "rot") {
        return Some(NamedOp::Rot);
    }
    if same(word, "round") {
        return Some(NamedOp::Round);
    }
    if same(word, "s") {
        return Some(NamedOp::SineOsc);
    }
    if same(word, "s'") {
        return Some(NamedOp::SineOscFast);
    }
    if same(word, "saw") {
        return Some(NamedOp::Saw);
    }
    if same(word, "sh") || same(word, "sample&hold") {
        return Some(NamedOp::SampleAndHold);
    }
    if same(word, "ssh") {
        return Some(NamedOp::Ssh);
    }
    if same(word, "silence") {
        return Some(NamedOp::Silence);
    }
    if same(word, "sin") {
        return Some(NamedOp::Sin);
    }
    if same(word, "sin'") {
        return Some(NamedOp::SinFast);
    }
    if same(word, "sinc") {
        return Some(NamedOp::Sinc);
    }
    if same(word, "sinc'") {
        return Some(NamedOp::SincFast);
    }
    if same(word, "sine") {
        return Some(NamedOp::Sine);
    }
    if same(word, "sine'") {
        return Some(NamedOp::SineFast);
    }
    if same(word, "sinh") {
        return Some(NamedOp::Sinh);
    }
    if same(word, "spectral_shuffle") {
        return Some(NamedOp::SpectralShuffle);
    }
    if same(word, "st1") {
        return Some(NamedOp::St1);
    }
    if same(word, "spectral_reverse") {
        return Some(NamedOp::SpectralReverse);
    }
    if same(word, "sr") {
        return Some(NamedOp::Sr);
    }
    if same(word, "swap") {
        return Some(NamedOp::Swap);
    }
    if same(word, "t") {
        return Some(NamedOp::TriangleOsc);
    }
    if same(word, "tan") {
        return Some(NamedOp::Tan);
    }
    if same(word, "tan'") {
        return Some(NamedOp::TanFast);
    }
    if same(word, "tanh") {
        return Some(NamedOp::Tanh);
    }
    if same(word, "tri") {
        return Some(NamedOp::Tri);
    }
    if same(word, "tline") {
        return Some(NamedOp::Tline);
    }
    if same(word, "tquad") {
        return Some(NamedOp::Tquad);
    }
    if same(word, "uniexp") {
        return Some(NamedOp::Uniexp);
    }
    if same(word, "unit") {
        return Some(NamedOp::Unit);
    }
    if same(word, "w") {
        return Some(NamedOp::Phasor);
    }
    if same(word, "wah") {
        return Some(NamedOp::Wah);
    }
    if same(word, "wrap") {
        return Some(NamedOp::Wrap);
    }
    None
}

/// What keeps a word with arguments from naming an op.
#[derive(Clone, Copy, Debug, PartialEq, Eq, Structural)]
pub enum ArgProblem {
    /// A depth that is no count.
    BadDepth,
    /// No depth.
    MissingDepth,
    /// A channel that is no count.
    BadChannel,
    /// No channel.
    MissingChannel,
    /// No variable name.
    MissingVarName,
    /// No table file.
    MissingTableFile,
    /// No table name, or no table length.
    MissingTableNameOrLength,
    /// A kernel length that is no count.
    BadKernel,
    /// No kernel length.
    MissingKernel,
    /// A parameter number that is no count.
    BadParam,
    /// No parameter number.
    MissingParam,
    /// A word that names nothing.
    Unknown,
}

/// The op a word with arguments (`name:first:second`) names, with its
/// arguments: counts read as `usize`, the others as they are written (a
/// number that is no count is left to the caller to read).
pub enum FieldOp {
    Dig(usize),
    Bury(usize),
    Channel(usize),
    Delay(Option<String>),
    Feedback(Option<String>),
    FeedbackSat(Option<String>),
    Limit(Option<String>),
    Get(String),
    Assign(String),
    Var(String),
    FileTable(String),
    ReadTable(Option<String>),
    WriteTable(String, String),
    Conv(usize),
    ConvM(usize),
    Param(usize),
    Norm(usize),
    Pat(String),
    Gate(String),
    Trig(String),
    ClockedPat(String),
    ClockedGate(String),
    ClockedTrig(String),
    Poly,
    Nothing,
    /// The word names no op: why, and the text at fault (the argument, or
    /// the whole word where it names nothing).
    Refused(ArgProblem, String),
}

/// The text of an optional argument.
pub open spec fn opt_text(o: Option<String>) -> Option<Seq<char>> {
    match o {
        Some(s) => Some(s@),
        None => None,
    }
}

/// The `i`-th field, if there is one.
pub open spec fn field(t: Seq<Seq<char>>, i: int) -> Option<Seq<char>> {
    if 0 <= i < t.len() {
        Some(t[i])
    } else {
        None
    }
}

/// `r` is the op `ok` makes of the count `a`, or the problem that `a` is no
/// count (`bad`) or is missing (`missing`).
pub open spec fn counted(
    r: FieldOp,
    a: Option<Seq<char>>,
    ok: spec_fn(usize) -> FieldOp,
    bad: ArgProblem,
    missing: ArgProblem,
) -> bool {
    match a {
        Some(x) => match spec_parse_usize(x) {
            Some(n) => r == ok(n),
            None => r matches FieldOp::Refused(p, s) && p == bad && s@ == x,
        },
        None => r matches FieldOp::Refused(p, _) && p == missing,
    }
}

/// `r` holds a name taken from `a`, or the problem that it is missing.
pub open spec fn named_arg(r: FieldOp, a: Option<Seq<char>>, kind: int, missing: ArgProblem) -> bool {
    match a {
        Some(x) => match r {
            FieldOp::Get(n) => kind == 0 && n@ == x,
            FieldOp::Assign(n) => kind == 1 && n@ == x,
            FieldOp::Var(n) => kind == 2 && n@ == x,
            FieldOp::FileTable(n) => kind == 3 && n@ == x,
            _ => false,
        },
        None => r matches FieldOp::Refused(p, _) && p == missing,
    }
}

/// The text of a pattern argument: empty where there is none.
pub open spec fn pattern_arg(a: Option<Seq<char>>) -> Seq<char> {
    match a {
        Some(x) => x,
        None => Seq::empty(),
    }
}

/// `r` is what the word `w`, split at `:`, names: by its first field.
pub open spec fn field_op_is(r: FieldOp, w: Seq<char>) -> bool {
    let t = split_on(w, ':');
    let h = t[0];
    let a = field(t, 1);
    if h == ""@ && t.len() > 1 {
        counted(r, a, |n: usize| FieldOp::Dig(n), ArgProblem::BadDepth, ArgProblem::MissingDepth)
    } else if h == "dig"@ {
        counted(r, a, |n: usize| FieldOp::Dig(n), ArgProblem::BadDepth, ArgProblem::MissingDepth)
    } else if h == "-"@ || h == "bury"@ {
        counted(r, a, |n: usize| FieldOp::Bury(n), ArgProblem::BadDepth, ArgProblem::MissingDepth)
    } else if h == "ch"@ || h == "channel"@ {
        counted(r, a, |n: usize| FieldOp::Channel(n), ArgProblem::BadChannel, ArgProblem::MissingChannel)
    } else if h == "dl"@ || h == "delay"@ {
        r matches FieldOp::Delay(x) && opt_text(x) == a
    } else if h == "fb"@ || h == "feedback"@ {
        r matches FieldOp::Feedback(x) && opt_text(x) == a
    } else if h == "fbsat"@ {
        r matches FieldOp::FeedbackSat(x) && opt_text(x) == a
    } else if h == "get"@ {
        named_arg(r, a, 0, ArgProblem::MissingVarName)
    } else if h == "set"@ {
        named_arg(r, a, 1, ArgProblem::MissingVarName)
    } else if h == "var"@ {
        named_arg(r, a, 2, ArgProblem::MissingVarName)
    } else if h == "ft"@ || h == "ftab"@ || h == "filetable"@ {
        named_arg(r, a, 3, ArgProblem::MissingTableFile)
    } else if h == "rt"@ || h == "rtab"@ || h == "readtable"@ {
        r matches FieldOp::ReadTable(x) && opt_text(x) == a
    } else if h == "wt"@ || h == "wtab"@ || h == "writetable"@ {
        match field(t, 2) {
            Some(len) => r matches FieldOp::WriteTable(n, l) && n@ == t[1] && l@ == len,
            None => r matches FieldOp::Refused(p, _) && p == ArgProblem::MissingTableNameOrLength,
        }
    } else if h == "conv"@ {
        counted(r, a, |n: usize| FieldOp::Conv(n), ArgProblem::BadKernel, ArgProblem::MissingKernel)
    } else if h == "convm"@ {
        counted(r, a, |n: usize| FieldOp::ConvM(n), ArgProblem::BadKernel, ArgProblem::MissingKernel)
    } else if h == "param"@ {
        counted(r, a, |n: usize| FieldOp::Param(n), ArgProblem::BadParam, ArgProblem::MissingParam)
    } else if h == "limit"@ {
        r matches FieldOp::Limit(x) && opt_text(x) == a
    } else if h == "norm"@ {
        r == FieldOp::Norm(
            match a {
                Some(x) => match spec_parse_usize(x) {
                    Some(n) => n,
                    None => 256,
                },
                None => 256,
            },
        )
    } else if h == "pat"@ {
        r matches FieldOp::Pat(p) && p@ == pattern_arg(a)
    } else if h == "gate"@ {
        r matches FieldOp::Gate(p) && p@ == pattern_arg(a)
    } else if h == "trig"@ {
        r matches FieldOp::Trig(p) && p@ == pattern_arg(a)
    } else if h == "cpat"@ {
        r matches FieldOp::ClockedPat(p) && p@ == pattern_arg(a)
    } else if h == "cgate"@ {
        r matches FieldOp::ClockedGate(p) && p@ == pattern_arg(a)
    } else if h == "ctrig"@ {
        r matches FieldOp::ClockedTrig(p) && p@ == pattern_arg(a)
    } else if h == "poly"@ {
        r == FieldOp::Poly
    } else if h == ""@ {
        r == FieldOp::Nothing
    } else {
        r matches FieldOp::Refused(p, s) && p == ArgProblem::Unknown && s@ == w
    }
}

/// The words that move frames name their op with the count after the `:`:
/// `dig:n` (also `:n`) digs the `n`-th frame up, `bury:n` (also `-:n`)
/// buries the top frame `n` deep, and `ch:n` (also `channel:n`) spreads the
/// `n`-th channel of the top frame.
pub proof fn lemma_count_words(head: Seq<char>, arg: Seq<char>, n: usize, r: FieldOp)
    requires
        !head.contains(':'),
        !arg.contains(':'),
        spec_parse_usize(arg) == Some(n),
        field_op_is(r, head + seq![':'] + arg),
    ensures
        head == seq!['d', 'i', 'g'] || head.len() == 0 ==> r == FieldOp::Dig(n),
        head == seq!['b', 'u', 'r', 'y'] || head == seq!['-'] ==> r == FieldOp::Bury(n),
        head == seq!['c', 'h'] || head == seq!['c', 'h', 'a', 'n', 'n', 'e', 'l'] ==> r == FieldOp::Channel(n),
{
    lemma_split_on_pair(head, arg, ':');
    if head == seq!['d', 'i', 'g'] || head.len() == 0 {
        lemma_dig_word(head, arg, n, r);
    } else if head == seq!['b', 'u', 'r', 'y'] || head == seq!['-'] {
        lemma_bury_word(head, arg, n, r);
    } else if head == seq!['c', 'h'] || head == seq!['c', 'h', 'a', 'n', 'n', 'e', 'l'] {
        lemma_channel_word(head, arg, n, r);
    }
}

proof fn lemma_dig_word(head: Seq<char>, arg: Seq<char>, n: usize, r: FieldOp)
    requires
        split_on(head + seq![':'] + arg, ':') == seq![head, arg],
        spec_parse_usize(arg) == Some(n),
        field_op_is(r, head + seq![':'] + arg),
        head == seq!['d', 'i', 'g'] || head.len() == 0,
    ensures
        r == FieldOp::Dig(n),
{
    reveal_strlit("");
    reveal_strlit("dig");
    if head.len() == 0 {
        assert(head =~= ""@);
    } else {
        assert(head =~= "dig"@);
        assert(head != ""@);
    }
}

proof fn lemma_bury_word(head: Seq<char>, arg: Seq<char>, n: usize, r: FieldOp)
    requires
        split_on(head + seq![':'] + arg, ':') == seq![head, arg],
        spec_parse_usize(arg) == Some(n),
        field_op_is(r, head + seq![':'] + arg),
        head == seq!['b', 'u', 'r', 'y'] || head == seq!['-'],
    ensures
        r == FieldOp::Bury(n),
{
    reveal_strlit("");
    reveal_strlit("dig");
    reveal_strlit("-");
    reveal_strlit("bury");
    assert(head != ""@ && head != "dig"@);
    if head.len() == 1 {
        assert(head =~= "-"@);
    } else {
        assert(head =~= "bury"@);
    }
}

proof fn lemma_channel_word(head: Seq<char>, arg: Seq<char>, n: usize, r: FieldOp)
    requires
        split_on(head + seq![':'] + arg, ':') == seq![head, arg],
        spec_parse_usize(arg) == Some(n),
        field_op_is(r, head + seq![':'] + arg),
        head == seq!['c', 'h'] || head == seq!['c', 'h', 'a', 'n', 'n', 'e', 'l'],
    ensures
        r == FieldOp::Channel(n),
{
    reveal_strlit("");
    reveal_strlit("dig");
    reveal_strlit("-");
    reveal_strlit("bury");
    reveal_strlit("ch");
    reveal_strlit("channel");
    assert(head != ""@ && head != "dig"@ && head != "-"@ && head != "bury"@);
    if head.len() == 2 {
        assert(head =~= "ch"@);
    } else {
        assert(head =~= "channel"@);
    }
}

/// The field `i`, if there is one.
fn field_at(fields: &Vec<String>, i: usize) -> (r: Option<String>)
    ensures
        opt_text(r) == field(fields@.map_values(|f: String| f@), i as int),
{
    if i < fields.len() {
        Some(fields[i].clone())
    } else {
        None
    }
}

/// A count argument.
fn count_of(
    a: Option<String>,
    bad: ArgProblem,
    missing: ArgProblem,
    Ghost(ok): Ghost<spec_fn(usize) -> FieldOp>,
) -> (r: Result<usize, FieldOp>)
    ensures
        match r {
            Ok(n) => opt_text(a) matches Some(x) && spec_parse_usize(x) == Some(n),
            Err(f) => counted(f, opt_text(a), ok, bad, missing),
        },
{
    match a {
        Some(x) => {
            let c = chars_of(x.as_str());
            match parse_usize(c.as_slice()) {
                Some(n) => Ok(n),
                None => Err(FieldOp::Refused(bad, x)),
            }
        },
        None => Err(FieldOp::Refused(missing, String::new())),
    }
}

/// The pattern text of an argument: empty where there is none.
fn pattern_of(a: Option<String>) -> (r: String)
    ensures
        r@ == pattern_arg(opt_text(a)),
{
    match a {
        Some(x) => x,
        None => String::new(),
    }
}

/// What a word with arguments (`name:first:second`) names.
#[verifier::rlimit(100)]
pub fn field_op(word: &str) -> (r: FieldOp)
    ensures
        field_op_is(r, word@),
{
    let fields = split_fields(word, ':');
    let ghost t = split_on(word@, ':');
    assert(fields@.map_values(|f: String| f@) =~= t);
    proof {
        lemma_split_on_nonempty(word@, ':');
    }
    let h = fields[0].as_str();
    let a = field_at(&fields, 1);
    if same(h, "") && fields.len() > 1 {
        let ghost ok = |n: usize| FieldOp::Dig(n);
        match count_of(a, ArgProblem::BadDepth, ArgProblem::MissingDepth, Ghost(ok)) {
            Ok(n) => FieldOp::Dig(n),
            Err(f) => f,
        }
    } else if same(h, "dig") {
        let ghost ok = |n: usize| FieldOp::Dig(n);
        match count_of(a, ArgProblem::BadDepth, ArgProblem::MissingDepth, Ghost(ok)) {
            Ok(n) => FieldOp::Dig(n),
            Err(f) => f,
        }
    } else if same(h, "-") || same(h, "bury") {
        let ghost ok = |n: usize| FieldOp::Bury(n);
        match count_of(a, ArgProblem::BadDepth, ArgProblem::MissingDepth, Ghost(ok)) {
            Ok(n) => FieldOp::Bury(n),
            Err(f) => f,
        }
    } else if same(h, "ch") || same(h, "channel") {
        let ghost ok = |n: usize| FieldOp::Channel(n);
        match count_of(a, ArgProblem::BadChannel, ArgProblem::MissingChannel, Ghost(ok)) {
            Ok(n) => FieldOp::Channel(n),
            Err(f) => f,
        }
    } else if same(h, "dl") || same(h, "delay") {
        FieldOp::Delay(a)
    } else if same(h, "fb") || same(h, "feedback") {
        FieldOp::Feedback(a)
    } else if same(h, "fbsat") {
        FieldOp::FeedbackSat(a)
    } else if same(h, "get") {
        match a {
            Some(x) => FieldOp::Get(x),
            None => FieldOp::Refused(ArgProblem::MissingVarName, String::new()),
        }
    } else if same(h, "set") {
        match a {
            Some(x) => FieldOp::Assign(x),
            None => FieldOp::Refused(ArgProblem::MissingVarName, String::new()),
        }
    } else if same(h, "var") {
        match a {
            Some(x) => FieldOp::Var(x),
            None => FieldOp::Refused(ArgProblem::MissingVarName, String::new()),
        }
    } else if same(h, "ft") || same(h, "ftab") || same(h, "filetable") {
        match a {
            Some(x) => FieldOp::FileTable(x),
            None => FieldOp::Refused(ArgProblem::MissingTableFile, String::new()),
        }
    } else if same(h, "rt") || same(h, "rtab") || same(h, "readtable") {
        FieldOp::ReadTable(a)
    } else if same(h, "wt") || same(h, "wtab") || same(h, "writetable") {
        match field_at(&fields, 2) {
            Some(len) => FieldOp::WriteTable(fields[1].clone(), len),
            None => FieldOp::Refused(ArgProblem::MissingTableNameOrLength, String::new()),
        }
    } else if same(h, "conv") {
        let ghost ok = |n: usize| FieldOp::Conv(n);
        match count_of(a, ArgProblem::BadKernel, ArgProblem::MissingKernel, Ghost(ok)) {
            Ok(n) => FieldOp::Conv(n),
            Err(f) => f,
        }
    } else if same(h, "convm") {
        let ghost ok = |n: usize| FieldOp::ConvM(n);
        match count_of(a, ArgProblem::BadKernel, ArgProblem::MissingKernel, Ghost(ok)) {
            Ok(n) => FieldOp::ConvM(n),
            Err(f) => f,
        }
    } else if same(h, "param") {
        let ghost ok = |n: usize| FieldOp::Param(n);
        match count_of(a, ArgProblem::BadParam, ArgProblem::MissingParam, Ghost(ok)) {
            Ok(n) => FieldOp::Param(n),
            Err(f) => f,
        }
    } else if same(h, "limit") {
        FieldOp::Limit(a)
    } else if same(h, "norm") {
        let n = match a {
            Some(x) => {
                let c = chars_of(x.as_str());
                match parse_usize(c.as_slice()) {
                    Some(n) => n,
                    None => 256,
                }
            },
            None => 256,
        };
        FieldOp::Norm(n)
    } else if same(h, "pat") {
        FieldOp::Pat(pattern_of(a))
    } else if same(h, "gate") {
        FieldOp::Gate(pattern_of(a))
    } else if same(h, "trig") {
        FieldOp::Trig(pattern_of(a))
    } else if same(h, "cpat") {
        FieldOp::ClockedPat(pattern_of(a))
    } else if same(h, "cgate") {
        FieldOp::ClockedGate(pattern_of(a))
    } else if same(h, "ctrig") {
        FieldOp::ClockedTrig(pattern_of(a))
    } else if same(h, "poly") {
        FieldOp::Poly
    } else if same(h, "") {
        FieldOp::Nothing
    } else {
        FieldOp::Refused(ArgProblem::Unknown, word.to_string())
    }
}

/// How a word of a program is read.
pub enum WordOp {
    /// Nothing but white space: no op.
    Blank,
    /// A variable word (`<name`, `=name`, `>name`).
    Variable(VarAccess, String),
    /// A word that names an op by itself.
    Named(NamedOp),
    /// Any other word: a number (read by the caller), or a word with
    /// arguments.
    Fields(FieldOp),
}

/// `r` is how the word `w` is read: blank, a variable word, a word that
/// names an op by itself, or else by its fields.
pub open spec fn word_op_is(r: WordOp, w: Seq<char>) -> bool {
    if trimmed(w).len() == 0 {
        r matches WordOp::Blank
    } else {
        match spec_variable_word(w) {
            Some((acc, name)) => r matches WordOp::Variable(a, n) && a == acc && n@ == name,
            None => match spec_named_op(w) {
                Some(k) => r matches WordOp::Named(k2) && k2 == k,
                None => r matches WordOp::Fields(f) && field_op_is(f, w),
            },
        }
    }
}

/// How a word of a program is read.
pub fn word_op(word: &str) -> (r: WordOp)
    ensures
        word_op_is(r, word@),
{
    let c = chars_of(word);
    if trim(c.as_slice()).len() == 0 {
        return WordOp::Blank;
    }
    match variable_word(word) {
        Some((a, n)) => WordOp::Variable(a, n),
        None => match named_op(word) {
            Some(k) => WordOp::Named(k),
            None => WordOp::Fields(field_op(word)),
        },
    }
}

} // verus!
