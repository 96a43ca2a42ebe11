use sound_garden::help::{get_help, get_op_groups, group_lines, index_items};
use std::collections::HashMap;

/// A help text in the layout of the program's own: headings, then terms
/// with their arguments and definitions.
const HELP: &str = "== Ops\n\n=== Math\n+:: Adds two signals.\nsum, plus:: Adds two signals.\n\n=== Triggers\nm, metro:<bpm>:: Emits a trigger at the given rate.\ndm, dmetro:<ms>:: Emits a trigger every given period.\n\n=== Other\nx:: y\n";

#[test]
fn help_index_contains_aliases_and_grouped_terms() {
    let help: HashMap<String, String> = get_help(HELP).into_iter().collect();
    assert_eq!(help.get("+").map(String::as_str), help.get("add").map(String::as_str));
    assert!(help.contains_key("metro"));

    let groups = get_op_groups(HELP);
    assert!(groups.iter().any(|(group, terms)| group == "Triggers" && terms.iter().any(|term| term.starts_with("metro"))));
}

#[test]
fn terms_are_cut_at_their_first_colon_and_definitions_trimmed() {
    let entries = get_help("in, input:<n>::   The input channel.  \n");
    assert_eq!(
        entries,
        vec![
            ("in".to_string(), "The input channel.".to_string()),
            ("input".to_string(), "The input channel.".to_string()),
        ]
    );
}

#[test]
fn the_last_heading_closes_no_group() {
    let groups = get_op_groups("=== A\na:: x\n=== B\nb, c:: y\n");
    assert_eq!(groups, vec![("A".to_string(), vec!["a".to_string()])]);
}

#[test]
fn terms_before_the_first_heading_belong_to_no_group() {
    let lines: Vec<(Option<String>, Option<String>)> = vec![
        (None, Some("x".to_string())),
        (Some("A".to_string()), None),
        (None, Some("a, b".to_string())),
        (None, None),
        (Some("B".to_string()), None),
    ];
    assert_eq!(group_lines(&lines), vec![("A".to_string(), vec!["a".to_string(), "b".to_string()])]);
}

#[test]
fn each_term_of_an_item_gets_its_definition() {
    let items = vec![("p, pulse:<w>".to_string(), " A pulse. ".to_string())];
    assert_eq!(
        index_items(&items),
        vec![("p".to_string(), "A pulse.".to_string()), ("pulse".to_string(), "A pulse.".to_string())]
    );
}

#[test]
fn aliases_of_one_item_share_its_definition() {
    let help: HashMap<String, String> = get_help(HELP).into_iter().collect();
    assert_eq!(help.get("sum").map(String::as_str), help.get("plus").map(String::as_str));
    assert_eq!(help.get("plus").map(String::as_str), Some("Adds two signals."));
    // `+` is no word character: the item pattern leaves it out.
    assert!(!help.contains_key("+"));
}

#[test]
fn a_later_definition_of_a_term_stands_over_an_earlier_one() {
    let help: HashMap<String, String> = get_help("a:: one\na, b:: two\n").into_iter().collect();
    assert_eq!(help.get("a").map(String::as_str), Some("two"));
    assert_eq!(help.get("b").map(String::as_str), Some("two"));
    assert_eq!(help.len(), 2);
}
