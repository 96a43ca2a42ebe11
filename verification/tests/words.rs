use sound_garden::program::TextOp;
use sound_garden::words::{ends_program, parse_usize, return_position, split_fields, variable_word, VarAccess};

fn chars(s: &str) -> Vec<char> {
    s.chars().collect()
}

#[test]
fn parse_usize_reads_like_str_parse() {
    for s in ["0", "42", "+7", "", "+", "-1", "1x", " 1", "18446744073709551615", "18446744073709551616"] {
        assert_eq!(parse_usize(&chars(s)), s.parse::<usize>().ok(), "{}", s);
    }
}

#[test]
fn split_fields_splits_like_str_split() {
    for s in ["dig:2", "wt:loop:1.5", ":3", "poly", "", "a::b:", "pat:60, [64,67]"] {
        let expected: Vec<String> = s.split(':').map(String::from).collect();
        assert_eq!(split_fields(s, ':'), expected, "{}", s);
    }
}

#[test]
fn variable_words_name_their_variable() {
    assert_eq!(variable_word("<x"), Some((VarAccess::Read, "x".to_string())));
    assert_eq!(variable_word("=gain"), Some((VarAccess::Write, "gain".to_string())));
    assert_eq!(variable_word(">é"), Some((VarAccess::Take, "é".to_string())));
    assert_eq!(variable_word("<"), None);
    assert_eq!(variable_word("x<"), None);
    assert_eq!(variable_word(""), None);
}

#[test]
fn the_program_returns_at_the_first_return_word() {
    let op = |id: u64, s: &str| TextOp { id, op: s.to_string() };
    assert_eq!(return_position(&[op(1, "440"), op(2, "s"), op(3, "ret"), op(4, "!")]), Some(2));
    assert_eq!(return_position(&[op(1, "returns"), op(2, "s")]), None);
    assert!(ends_program("return") && ends_program("ret") && ends_program("!"));
    assert!(!ends_program("re") && !ends_program("!!"));
}
