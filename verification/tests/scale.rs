use sound_garden::scale::ScaleQuantizer;

/// The note of the scale nearest to a pitch, the lower on a tie: the
/// pitch rounded up to a half semitone goes to the library.
fn snap(scale: &ScaleQuantizer, midi: f64) -> f64 {
    if !midi.is_finite() {
        return 0.0;
    }
    scale.nearest_note((midi * 2.0).ceil() as i64) as f64
}

#[test]
fn nearest_note_takes_the_lower_of_two_as_near() {
    let scale = ScaleQuantizer::named("major").unwrap();
    // 61 lies between 60 and 62: the lower wins.
    assert_eq!(scale.nearest_note(122), 60);
    // 61.5 is nearer 62.
    assert_eq!(scale.nearest_note(123), 62);
    // Below zero the octaves go on: -1 is the seventh of the octave below.
    assert_eq!(scale.nearest_note(-2), -1);
    assert_eq!(scale.nearest_note(-30), -15);
}

#[test]
fn major_scale_snaps_nearest_with_ties_low() {
    let scale = ScaleQuantizer::named("major").unwrap();
    assert_eq!(snap(&scale, 61.0), 60.0);
    assert_eq!(snap(&scale, 61.6), 62.0);
    assert_eq!(snap(&scale, 71.8), 72.0);
}

#[test]
fn degree_list_matches_named_scale() {
    let named = ScaleQuantizer::named("minor").unwrap();
    let deg = ScaleQuantizer::parse_degrees("0,2,3,5,7,8,10").unwrap();
    for midi in -24..96 {
        assert_eq!(snap(&deg, midi as f64 + 0.37), snap(&named, midi as f64 + 0.37));
    }
    assert_eq!(deg.intervals(), named.intervals());
}

#[test]
fn negative_and_non_finite_inputs_are_handled() {
    let scale = ScaleQuantizer::named("major").unwrap();
    assert_eq!(snap(&scale, -0.4), 0.0);
    assert_eq!(snap(&scale, -1.2), -1.0);
    assert_eq!(snap(&scale, f64::NAN), 0.0);
}

#[test]
fn degrees_are_folded_into_one_octave_sorted_and_unique() {
    let scale = ScaleQuantizer::new(&[14, -1, 2, 0, 12]).unwrap();
    assert_eq!(scale.intervals(), &[0, 2, 11]);
    assert!(ScaleQuantizer::new(&[]).is_none());
}

#[test]
fn names_ignore_ascii_case_and_unknown_names_are_refused() {
    assert_eq!(ScaleQuantizer::named("MajPent").unwrap().intervals(), &[0, 2, 4, 7, 9]);
    assert_eq!(ScaleQuantizer::named("Ionian").unwrap().intervals(), ScaleQuantizer::named("major").unwrap().intervals());
    assert!(ScaleQuantizer::named("blues").is_none());
}

#[test]
fn degree_lists_are_trimmed_and_refused_when_not_numbers() {
    assert_eq!(ScaleQuantizer::parse_degrees(" 0 , 4,7 ").unwrap().intervals(), &[0, 4, 7]);
    assert!(ScaleQuantizer::parse_degrees("0,x").is_none());
    assert!(ScaleQuantizer::parse_degrees("").is_none());
    assert!(ScaleQuantizer::parse_degrees("0,,7").is_none());
}

#[test]
fn degrees_with_the_same_semitones_make_the_same_scale() {
    assert_eq!(ScaleQuantizer::new(&[7, 0, 4, 12, -8]), ScaleQuantizer::new(&[0, 4, 7]));
}
