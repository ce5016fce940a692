use le_resampler::metadata::{
    bpm_from_digits, category_for_lowercase, infer_bpm_from_filename, infer_category_from_path,
    infer_key_from_filename, infer_metadata, key_spelling, normalize_key, sample_type_for,
    BpmSource, EmbeddedTags, KeySource,
};

fn bpm(filename: &str) -> Option<f64> {
    infer_bpm_from_filename(filename).map(f64::from)
}

// --- infer_bpm_from_filename ---

#[test]
fn bpm_dash_separator() {
    assert_eq!(bpm("groove-128bpm.wav"), Some(128.0));
}

#[test]
fn bpm_uppercase() {
    assert_eq!(bpm("groove-128BPM.wav"), Some(128.0));
}

#[test]
fn bpm_space_separator() {
    assert_eq!(bpm("hit 90 bpm.wav"), Some(90.0));
}

#[test]
fn bpm_start_of_string() {
    assert_eq!(bpm("128bpm.wav"), Some(128.0));
}

#[test]
fn bpm_boundary_low() {
    assert_eq!(bpm("40bpm.wav"), Some(40.0));
}

#[test]
fn bpm_boundary_high() {
    assert_eq!(bpm("300bpm.wav"), Some(300.0));
}

#[test]
fn bpm_below_min_filtered_out() {
    assert_eq!(bpm("kick-30bpm.wav"), None);
}

#[test]
fn bpm_above_max_filtered_out() {
    assert_eq!(bpm("kick-350bpm.wav"), None);
}

#[test]
fn bpm_no_bpm_in_name() {
    assert_eq!(bpm("kick.wav"), None);
}

#[test]
fn bpm_underscore_separator() {
    assert_eq!(infer_bpm_from_filename("loop 140_bpm.wav"), Some(140));
    assert_eq!(infer_bpm_from_filename("loop_140_bpm.wav"), None);
}

#[test]
fn bpm_needs_word_boundary() {
    assert_eq!(infer_bpm_from_filename("x128bpm.wav"), None);
}

#[test]
fn bpm_digits_parsing() {
    assert_eq!(bpm_from_digits("128"), Some(128));
    assert_eq!(bpm_from_digits("040"), Some(40));
    assert_eq!(bpm_from_digits("39"), None);
    assert_eq!(bpm_from_digits("301"), None);
    assert_eq!(bpm_from_digits(""), None);
    assert_eq!(bpm_from_digits("1a0"), None);
    assert_eq!(bpm_from_digits("99999999999999999999"), None);
}

// --- infer_key_from_filename ---

#[test]
fn key_major() {
    assert_eq!(infer_key_from_filename("arp_Cmaj_pad.wav"), Some("Cmaj".to_string()));
}

#[test]
fn key_minor_short() {
    assert_eq!(infer_key_from_filename("sample_Am_loop.wav"), Some("Am".to_string()));
}

#[test]
fn key_sharp_minor() {
    assert_eq!(infer_key_from_filename("chord_F#m-vox.wav"), Some("F#m".to_string()));
}

#[test]
fn key_flat() {
    assert_eq!(infer_key_from_filename("pad_Bb_warm.wav"), Some("Bb".to_string()));
}

#[test]
fn key_no_key_in_name() {
    assert_eq!(infer_key_from_filename("kick_128bpm.wav"), None);
}

#[test]
fn key_at_start_of_filename() {
    assert_eq!(infer_key_from_filename("Am_loop_140bpm.wav"), Some("Am".to_string()));
}

#[test]
fn key_in_parentheses() {
    assert_eq!(infer_key_from_filename("loop_(Am)_140bpm.wav"), Some("Am".to_string()));
}

#[test]
fn key_in_brackets() {
    assert_eq!(infer_key_from_filename("loop_[Dm]_120bpm.wav"), Some("Dm".to_string()));
}

#[test]
fn key_minor_long_form() {
    assert_eq!(infer_key_from_filename("loop_Aminor_140bpm.wav"), Some("Am".to_string()));
}

#[test]
fn key_major_long_form() {
    assert_eq!(infer_key_from_filename("loop_Cmajor_120bpm.wav"), Some("Cmaj".to_string()));
}

#[test]
fn key_min_short_form_normalized() {
    assert_eq!(infer_key_from_filename("loop_Fmin_120bpm.wav"), Some("Fm".to_string()));
}

#[test]
fn key_maj_short_form_normalized() {
    assert_eq!(infer_key_from_filename("pad_Gmaj_warm.wav"), Some("Gmaj".to_string()));
}

#[test]
fn key_lowercase_normalized_to_title_case() {
    assert_eq!(infer_key_from_filename("arp_cm_pad.wav"), Some("Cm".to_string()));
}

#[test]
fn key_at_end_of_stem() {
    assert_eq!(infer_key_from_filename("pad_warm_Am.wav"), Some("Am".to_string()));
}

#[test]
fn key_sharp_minor_normalized() {
    assert_eq!(infer_key_from_filename("chord_C#minor_vox.wav"), Some("C#m".to_string()));
}

#[test]
fn normalize_key_spellings() {
    assert_eq!(normalize_key("AMINOR"), "Am");
    assert_eq!(normalize_key("cmaj"), "Cmaj");
    assert_eq!(normalize_key("Dbmajor"), "Dbmaj");
    assert_eq!(normalize_key("e"), "E");
    assert_eq!(normalize_key("G#min"), "G#m");
}

// --- infer_category_from_path ---

#[test]
fn category_kick() {
    assert_eq!(infer_category_from_path("/samples/kick/hit.wav"), Some("kick".to_string()));
}

#[test]
fn category_snare() {
    assert_eq!(infer_category_from_path("/samples/snare/hit.wav"), Some("snare".to_string()));
}

#[test]
fn category_clap_maps_to_snare() {
    assert_eq!(infer_category_from_path("/samples/clap/hit.wav"), Some("snare".to_string()));
}

#[test]
fn category_hat_slash_prefix() {
    assert_eq!(infer_category_from_path("/samples/hat/closed.wav"), Some("hat".to_string()));
}

#[test]
fn category_hihat() {
    assert_eq!(infer_category_from_path("/samples/hihat/open.wav"), Some("hat".to_string()));
}

#[test]
fn category_hi_hat_dash() {
    assert_eq!(infer_category_from_path("/samples/hi-hat/pedal.wav"), Some("hat".to_string()));
}

#[test]
fn category_loop() {
    assert_eq!(infer_category_from_path("/samples/loop/beat.wav"), Some("loop".to_string()));
}

#[test]
fn category_vocal() {
    assert_eq!(infer_category_from_path("/samples/vocal/chorus.wav"), Some("vocal".to_string()));
}

#[test]
fn category_voice_maps_to_vocal() {
    assert_eq!(infer_category_from_path("/samples/voice/whisper.wav"), Some("vocal".to_string()));
}

#[test]
fn category_fx() {
    assert_eq!(infer_category_from_path("/samples/fx/sweep.wav"), Some("fx".to_string()));
}

#[test]
fn category_bass() {
    assert_eq!(infer_category_from_path("/samples/bass/line.wav"), Some("bass".to_string()));
}

#[test]
fn category_perc() {
    assert_eq!(infer_category_from_path("/samples/perc/conga.wav"), Some("perc".to_string()));
}

#[test]
fn category_none() {
    assert_eq!(infer_category_from_path("/samples/misc/sound.wav"), None);
}

#[test]
fn category_ignores_case() {
    assert_eq!(infer_category_from_path("/Samples/KICK/Hit.WAV"), Some("kick".to_string()));
}

#[test]
fn category_first_rule_wins() {
    // "kick" comes before "loop" in the rules.
    assert_eq!(infer_category_from_path("/loops/kick_loop.wav"), Some("kick".to_string()));
    // A tom is percussion.
    assert_eq!(infer_category_from_path("/drums/tom1.wav"), Some("perc".to_string()));
}

// --- sample type and metadata combination ---

#[test]
fn sample_type_threshold() {
    assert_eq!(sample_type_for(Some(1999)), Some("one-shot".to_string()));
    assert_eq!(sample_type_for(Some(2000)), Some("loop".to_string()));
    assert_eq!(sample_type_for(None), None);
}

#[test]
fn metadata_from_path_only() {
    let m = infer_metadata("/lib/kick/hit-128bpm.wav", None);
    assert_eq!(m.duration_ms, None);
    assert_eq!(m.bpm, BpmSource::Filename(128));
    assert_eq!(m.category.as_deref(), Some("kick"));
    assert!(m.sample_type.is_none());
    assert!(m.musical_key.is_none());
    assert!(m.key_source.is_none());
}

#[test]
fn metadata_key_from_filename_source() {
    let tags = EmbeddedTags { duration_ms: 0, has_bpm: false, key: None };
    let m = infer_metadata("/tmp/pad_Am_warm.wav", Some(tags));
    assert_eq!(m.musical_key.as_deref(), Some("Am"));
    assert_eq!(m.key_source, Some(KeySource::Filename));
    assert_eq!(m.duration_ms, None);
}

#[test]
fn metadata_embedded_values_take_precedence() {
    let tags = EmbeddedTags { duration_ms: 2500, has_bpm: true, key: Some("F#m".to_string()) };
    let m = infer_metadata("/tmp/pad_Am_120bpm.wav", Some(tags));
    assert_eq!(m.musical_key.as_deref(), Some("F#m"));
    assert_eq!(m.key_source, Some(KeySource::Metadata));
    assert_eq!(m.bpm, BpmSource::Embedded);
    assert_eq!(m.duration_ms, Some(2500));
    assert_eq!(m.sample_type.as_deref(), Some("loop"));
}

#[test]
fn metadata_empty_embedded_key_is_ignored() {
    let tags = EmbeddedTags { duration_ms: 1, has_bpm: false, key: Some(String::new()) };
    let m = infer_metadata("/tmp/kick-128bpm.wav", Some(tags));
    assert!(m.musical_key.is_none());
    assert!(m.key_source.is_none());
    assert_eq!(m.sample_type.as_deref(), Some("one-shot"));
    assert_eq!(m.bpm, BpmSource::Filename(128));
}

#[test]
fn key_spelling_of_lowercase_text() {
    assert_eq!(key_spelling("c#minor"), "C#m");
    assert_eq!(key_spelling("bbmajor"), "Bbmaj");
    assert_eq!(key_spelling("f#maj"), "F#maj");
    assert_eq!(key_spelling("amin"), "Am");
    assert_eq!(key_spelling("d"), "D");
    // The text is taken as given: nothing is lowered first.
    assert_eq!(key_spelling("cMINOR"), "CMINOR");
}

#[test]
fn normalize_key_is_idempotent_on_ascii() {
    for raw in ["AMINOR", "cmaj", "Dbmajor", "e", "G#min", "f#", "Bbm", "Cmaj"] {
        let once = normalize_key(raw);
        assert_eq!(normalize_key(&once), once, "spelling of {:?}", raw);
    }
}

#[test]
fn category_for_lowercase_text() {
    assert_eq!(category_for_lowercase("/samples/kick/hit.wav"), Some("kick".to_string()));
    assert_eq!(category_for_lowercase("/samples/fx/rise.wav"), Some("fx".to_string()));
    assert_eq!(category_for_lowercase("c:\\bass\\sub.wav"), Some("bass".to_string()));
    // The text is taken as given: upper case does not match.
    assert_eq!(category_for_lowercase("/samples/KICK/hit.wav"), None);
}

#[test]
fn category_ignores_ascii_case_of_whole_path() {
    for path in ["/lib/Snare/rim.wav", "/x/HiHat_01.wav", "/Vocals/take.wav", "/misc/sound.wav"] {
        assert_eq!(
            infer_category_from_path(&path.to_ascii_uppercase()),
            infer_category_from_path(path),
            "category of {:?}",
            path
        );
    }
}
