use sound_garden::vocabulary::{field_op, named_op, word_op, ArgProblem, FieldOp, NamedOp, WordOp};
use sound_garden::words::VarAccess;

#[test]
fn words_that_name_an_op_by_themselves() {
    assert_eq!(named_op("*"), Some(NamedOp::Mul));
    assert_eq!(named_op("mul"), Some(NamedOp::Mul));
    assert_eq!(named_op("\\"), Some(NamedOp::Recip));
    assert_eq!(named_op("sample&hold"), Some(NamedOp::SampleAndHold));
    assert_eq!(named_op("#"), Some(NamedOp::Midi2freq));
    assert_eq!(named_op("s'"), Some(NamedOp::SineOscFast));
    assert_eq!(named_op("dig:2"), None);
    assert_eq!(named_op("440"), None);
}

#[test]
fn words_with_counts() {
    assert!(matches!(field_op(":3"), FieldOp::Dig(3)));
    assert!(matches!(field_op("dig:0"), FieldOp::Dig(0)));
    assert!(matches!(field_op("-:2"), FieldOp::Bury(2)));
    assert!(matches!(field_op("ch:1"), FieldOp::Channel(1)));
    assert!(matches!(field_op("norm"), FieldOp::Norm(256)));
    assert!(matches!(field_op("norm:x"), FieldOp::Norm(256)));
    assert!(matches!(field_op("norm:64"), FieldOp::Norm(64)));
    match field_op("dig:x") {
        FieldOp::Refused(ArgProblem::BadDepth, text) => assert_eq!(text, "x"),
        _ => panic!("a bad depth is refused"),
    }
    assert!(matches!(field_op("bury"), FieldOp::Refused(ArgProblem::MissingDepth, _)));
}

#[test]
fn words_with_text_arguments() {
    match field_op("dl:0.5") {
        FieldOp::Delay(Some(x)) => assert_eq!(x, "0.5"),
        _ => panic!("a delay"),
    }
    assert!(matches!(field_op("delay"), FieldOp::Delay(None)));
    match field_op("wt:tab:2") {
        FieldOp::WriteTable(name, len) => assert_eq!((name.as_str(), len.as_str()), ("tab", "2")),
        _ => panic!("a table writer"),
    }
    assert!(matches!(field_op("wt:tab"), FieldOp::Refused(ArgProblem::MissingTableNameOrLength, _)));
    match field_op("pat") {
        FieldOp::Pat(p) => assert_eq!(p, ""),
        _ => panic!("a pattern"),
    }
    match field_op("nonsense:1") {
        FieldOp::Refused(ArgProblem::Unknown, text) => assert_eq!(text, "nonsense:1"),
        _ => panic!("an unknown word"),
    }
}

#[test]
fn how_a_word_is_read() {
    assert!(matches!(word_op("   "), WordOp::Blank));
    match word_op(">x") {
        WordOp::Variable(VarAccess::Take, name) => assert_eq!(name, "x"),
        _ => panic!("a variable word"),
    }
    assert!(matches!(word_op("swap"), WordOp::Named(NamedOp::Swap)));
    assert!(matches!(word_op("440"), WordOp::Fields(FieldOp::Refused(ArgProblem::Unknown, _))));
}
