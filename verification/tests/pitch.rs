use le_resampler::pitch::note_name;

#[test]
fn note_names_of_midi_numbers() {
    assert_eq!(note_name(69), "A");
    assert_eq!(note_name(60), "C");
    assert_eq!(note_name(70), "A#");
    assert_eq!(note_name(71), "B");
    assert_eq!(note_name(0), "C");
}

#[test]
fn note_names_wrap_below_zero() {
    assert_eq!(note_name(-1), "B");
    assert_eq!(note_name(-12), "C");
    assert_eq!(note_name(-13), "B");
    assert_eq!(note_name(i32::MIN), "E");
}
