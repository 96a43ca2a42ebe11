use sound_garden::program::{TextOp, rewrite_terms, rewrite_terms_within, is_quotation_consumer, reuses_table};

fn op(id: u64, op: &str) -> TextOp {
    TextOp { id, op: op.to_owned() }
}

#[test]
fn rewrite_terms_does_its_thing() {
    assert_eq!(
        rewrite_terms(&[
            TextOp { id: 1, op: "[?".to_string() },
            TextOp { id: 10, op: "s]".to_string() },
            TextOp { id: 100, op: "foo".to_string() },
            TextOp { id: 1000, op: "[?".to_string() },
            TextOp { id: 10000, op: "foo".to_string() },
            TextOp { id: 100000, op: "+]".to_string() },
            TextOp { id: 1000000, op: "bar".to_string() },
            TextOp { id: 10000000, op: "1".to_string() },
            TextOp { id: 100000000, op: "bar".to_string() },
            TextOp { id: 1000000000, op: "2".to_string() },
            TextOp { id: 10000000000, op: "bar".to_string() }
        ]),
        vec![
            TextOp { id: 10000000, op: "1".to_string() },
            TextOp { id: 100010010, op: "s".to_string() },
            TextOp { id: 100100000, op: "+".to_string() },
            TextOp { id: 1000000000, op: "2".to_string() },
            TextOp { id: 10000010010, op: "s".to_string() },
            TextOp { id: 10000100000, op: "+".to_string() },
        ]
    );
}

#[test]
fn rewrite_drops_comments_and_keeps_plain_ops() {
    assert_eq!(
        rewrite_terms(&[op(1, "440"), op(2, ";hello"), op(3, "s"), op(4, ";")]),
        vec![op(1, "440"), op(3, "s")]
    );
}

#[test]
fn rewrite_marks_quotations_before_poly() {
    let quote_open = "\u{1}(";
    let quote_close = "\u{1})";
    assert_eq!(
        rewrite_terms(&[op(1, "5"), op(2, "1"), op(3, "["), op(4, "+"), op(5, "]"), op(6, "poly:2")]),
        vec![op(1, "5"), op(2, "1"), op(0, quote_open), op(4, "+"), op(0, quote_close), op(6, "poly:2")]
    );
}

#[test]
fn rewrite_of_a_self_expanding_template_gives_up_within_bound() {
    let ops = [op(1, "["), op(2, "a"), op(3, "]"), op(4, "a"), op(5, "a")];
    assert_eq!(rewrite_terms_within(&ops, 1000), None);
}

#[test]
fn rewrite_of_a_template_with_missing_holes_fails() {
    // "a?" becomes a template name; a template that mentions it collects
    // no hole of its own, so expanding it has nothing to fill "a?" with.
    let ops = [
        op(1, "["), op(2, "1"), op(3, "]"), op(4, "a?"),
        op(5, "["), op(6, "a?"), op(7, "]"), op(8, "b"),
        op(9, "b"),
    ];
    assert_eq!(rewrite_terms_within(&ops, 1000), None);
}

#[test]
fn rewrite_within_bound_matches_unbounded() {
    let ops = [op(1, "[?"), op(2, "2"), op(3, "*]"), op(4, "double"), op(5, "3"), op(6, "double")];
    let bounded = rewrite_terms_within(&ops, 1000).expect("halts");
    assert_eq!(bounded, rewrite_terms(&ops));
    assert_eq!(bounded, vec![op(5, "3"), op(8, "2"), op(9, "*")]);
}

#[test]
fn rewrite_strips_closing_brackets() {
    // A token loses its closing bracket.
    let ops = [op(1, "[x]"), op(2, "t"), op(3, "t")];
    assert_eq!(rewrite_terms_within(&ops, 1000), Some(vec![op(4, "x")]));
    // So does a token with characters outside ASCII.
    let ops = [op(1, "[é]"), op(2, "t"), op(3, "t")];
    assert_eq!(rewrite_terms_within(&ops, 1000), Some(vec![op(4, "é")]));
}

#[test]
fn quotation_consumers() {
    assert!(is_quotation_consumer("poly"));
    assert!(is_quotation_consumer("poly:4"));
    assert!(!is_quotation_consumer("polyx"));
    assert!(!is_quotation_consumer("pol"));
}

#[test]
fn comments_inside_templates_and_quotations_never_reach_the_result() {
    let rewritten = rewrite_terms(&[
        op(1, "["),
        op(2, ";ignored"),
        op(3, "1"),
        op(4, "]"),
        op(5, "one"),
        op(6, "one"),
        op(7, "["),
        op(8, ";ignored too"),
        op(9, "+"),
        op(10, "]"),
        op(11, "poly:1"),
    ]);
    assert!(rewritten.iter().all(|t| !t.op.starts_with(';')));
    assert_eq!(rewritten[0], op(3 + 6, "1"));
}

#[test]
fn a_bracket_before_a_semicolon_leaves_a_comment_behind() {
    let rewritten = rewrite_terms(&[op(1, "[;x"), op(2, "]"), op(3, "t"), op(4, "t")]);
    assert_eq!(rewritten, vec![op(1u64.wrapping_add(4), ";x")]);
}

#[test]
fn a_written_table_is_kept_only_at_the_same_length() {
    assert!(reuses_table(Some(48000), 48000));
    assert!(!reuses_table(Some(48000), 24000));
    assert!(!reuses_table(None, 48000));
    assert!(reuses_table(Some(0), 0));
}
