use sound_garden::constants::{note_name_semitone, parse_note_constant, NoteConstant, Waveform};
use sound_garden::program::{plan_program, voice_count, Piece, TextOp};

fn op(id: u64, op: &str) -> TextOp {
    TextOp { id, op: op.to_owned() }
}

const OPEN: &str = "\u{1}(";
const CLOSE: &str = "\u{1})";

#[test]
fn program_without_quotations_is_one_segment() {
    assert_eq!(plan_program(&[op(1, "440"), op(2, "s")]), vec![Piece::Segment(0, 2)]);
    assert_eq!(plan_program(&[]), vec![Piece::Segment(0, 0)]);
}

#[test]
fn quotation_before_poly_is_its_body() {
    let ops = [op(1, "1"), op(0, OPEN), op(3, "+"), op(0, CLOSE), op(5, "poly:2"), op(6, "out")];
    assert_eq!(plan_program(&ops), vec![Piece::Segment(0, 1), Piece::Quotation(2, 3, 4), Piece::Segment(5, 6)]);
}

#[test]
fn nested_quotations_close_at_the_matching_marker() {
    let ops = [op(0, OPEN), op(0, OPEN), op(3, "x"), op(0, CLOSE), op(5, "poly:1"), op(0, CLOSE), op(7, "poly:3")];
    assert_eq!(plan_program(&ops), vec![Piece::Segment(0, 0), Piece::Quotation(1, 5, 6), Piece::Segment(7, 7)]);
}

#[test]
fn quotation_without_consumer_is_skipped_and_unclosed_marker_too() {
    let ops = [op(0, OPEN), op(2, "x"), op(0, CLOSE), op(4, "y")];
    assert_eq!(plan_program(&ops), vec![Piece::Segment(0, 0), Piece::Segment(3, 4)]);
    let ops = [op(1, "a"), op(0, OPEN), op(3, "b")];
    assert_eq!(plan_program(&ops), vec![Piece::Segment(0, 1), Piece::Segment(2, 3)]);
}

#[test]
fn voice_counts_are_read_after_the_colon() {
    assert_eq!(voice_count("poly:4"), Some(4));
    assert_eq!(voice_count("poly:+3"), Some(3));
    assert_eq!(voice_count("poly:2:x"), Some(2));
    assert_eq!(voice_count("poly"), None);
    assert_eq!(voice_count("poly:"), None);
    assert_eq!(voice_count("poly:0"), None);
    assert_eq!(voice_count("poly:-1"), None);
    assert_eq!(voice_count("poly: 2"), None);
    assert_eq!(voice_count("poly:99999999999999999999999"), None);
}

#[test]
fn note_names_give_semitones() {
    assert_eq!(note_name_semitone('c'), Some(0));
    assert_eq!(note_name_semitone('A'), Some(9));
    assert_eq!(note_name_semitone('b'), Some(11));
    assert_eq!(note_name_semitone('h'), None);
}

#[test]
fn optimize_terms_parses_note_constants() {
    assert_eq!(parse_note_constant("C4"), Some(NoteConstant { midi: 60, frequency: false }));
    assert_eq!(parse_note_constant("A4"), Some(NoteConstant { midi: 69, frequency: false }));
    assert_eq!(parse_note_constant("a4"), Some(NoteConstant { midi: 69, frequency: true }));
    assert_eq!(parse_note_constant("C#4"), Some(NoteConstant { midi: 61, frequency: false }));
    assert_eq!(parse_note_constant("db4"), Some(NoteConstant { midi: 61, frequency: true }));
}

#[test]
fn other_tokens_are_no_note_constants() {
    assert_eq!(parse_note_constant("s4"), None);
    assert_eq!(parse_note_constant("c"), None);
    assert_eq!(parse_note_constant("c#"), None);
    assert_eq!(parse_note_constant("x4"), None);
    assert_eq!(parse_note_constant(""), None);
    assert_eq!(parse_note_constant("c-1"), Some(NoteConstant { midi: 0, frequency: true }));
    assert_eq!(parse_note_constant("C2147483647"), None);
}

#[test]
fn oscillators_are_named() {
    assert_eq!(Waveform::from_oscillator("c"), Some(Waveform::Cosine));
    assert_eq!(Waveform::from_oscillator("c'"), Some(Waveform::CosineFast));
    assert_eq!(Waveform::from_oscillator("s'"), Some(Waveform::SineFast));
    assert_eq!(Waveform::from_oscillator("t"), Some(Waveform::Triangle));
    assert_eq!(Waveform::from_oscillator("t'"), None);
    assert_eq!(Waveform::from_oscillator("saw"), None);
}
