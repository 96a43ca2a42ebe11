use sound_garden::server::{contains_chars, select_input, MidiInputSelection, Options};

fn names() -> Vec<String> {
    vec!["Midi Through Port-0".to_string(), "LaunchKey MK2 MIDI 1".to_string()]
}

fn chars(s: &str) -> Vec<char> {
    s.chars().collect()
}

#[test]
fn options_default_to_no_midi_input() {
    assert!(matches!(Options::new().midi, MidiInputSelection::NoInput));
    assert!(matches!(MidiInputSelection::default_selection(), MidiInputSelection::NoInput));
}

#[test]
fn no_input_selects_nothing() {
    assert!(matches!(select_input(&names(), &MidiInputSelection::NoInput), Ok(None)));
}

#[test]
fn auto_selects_the_first_input() {
    assert!(matches!(select_input(&names(), &MidiInputSelection::Auto), Ok(Some(0))));
    assert!(matches!(select_input(&[], &MidiInputSelection::Auto), Ok(None)));
}

#[test]
fn numeric_query_selects_by_index() {
    let pick = |q: &str| select_input(&names(), &MidiInputSelection::Match(q.to_string()));
    assert!(matches!(pick("1"), Ok(Some(1))));
    assert!(matches!(pick("+0"), Ok(Some(0))));
    assert!(matches!(pick("5"), Ok(None)));
}

#[test]
fn text_query_matches_names_without_case() {
    let pick = |q: &str| select_input(&names(), &MidiInputSelection::Match(q.to_string()));
    assert!(matches!(pick("launch"), Ok(Some(1))));
    assert!(matches!(pick("LAUNCHKEY"), Ok(Some(1))));
    assert!(matches!(pick("midi"), Ok(Some(0))));
    match pick("NanoKontrol") {
        Err(e) => assert_eq!(e.query, "nanokontrol"),
        Ok(_) => panic!("no input should match"),
    }
}

#[test]
fn contains_chars_finds_substrings() {
    assert!(contains_chars(&chars("launchkey"), &chars("key")));
    assert!(contains_chars(&chars("abc"), &chars("")));
    assert!(!contains_chars(&chars("ab"), &chars("abc")));
    assert!(!contains_chars(&chars("abcd"), &chars("bd")));
}

#[test]
fn midi_argument_reads_auto_or_a_query() {
    assert!(matches!(MidiInputSelection::from_argument(None), MidiInputSelection::NoInput));
    assert!(matches!(MidiInputSelection::from_argument(Some("auto".to_string())), MidiInputSelection::Auto));
    match MidiInputSelection::from_argument(Some("Auto".to_string())) {
        MidiInputSelection::Match(q) => assert_eq!(q, "Auto"),
        _ => panic!("only `auto` itself selects automatically"),
    }
}
