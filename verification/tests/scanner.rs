use le_resampler::metadata::{infer_metadata, BpmSource, InferredMeta, KeySource};
use le_resampler::scanner::{
    adopt_detected_key, is_audio_extension, is_audio_file, key_detection_plan, key_to_write, progress_update,
    sample_filename, DetectionPlan, KeyDetection, ScanComplete, ScanOptions,
};

// --- is_audio_file ---

#[test]
fn is_audio_wav() {
    assert!(is_audio_file("sample.wav"));
}

#[test]
fn is_audio_aif() {
    assert!(is_audio_file("sample.aif"));
}

#[test]
fn is_audio_aiff() {
    assert!(is_audio_file("sample.aiff"));
}

#[test]
fn is_audio_flac() {
    assert!(is_audio_file("sample.flac"));
}

#[test]
fn is_audio_mp3() {
    assert!(is_audio_file("sample.mp3"));
}

#[test]
fn is_audio_ogg() {
    assert!(is_audio_file("sample.ogg"));
}

#[test]
fn is_audio_opus() {
    assert!(is_audio_file("sample.opus"));
}

#[test]
fn is_audio_uppercase_extension() {
    assert!(is_audio_file("sample.WAV"));
}

#[test]
fn is_not_audio_txt() {
    assert!(!is_audio_file("readme.txt"));
}

#[test]
fn is_not_audio_no_extension() {
    assert!(!is_audio_file("noext"));
}

#[test]
fn is_audio_in_folder_and_hidden_files() {
    assert!(is_audio_file("/music/drums/kick.Flac"));
    assert!(!is_audio_file("/music/.wav"));
    assert!(!is_audio_file("/music/wav"));
}

// --- settings ---

#[test]
fn options_from_settings() {
    let o = ScanOptions::from_settings(Some("yin"), Some("true"));
    assert_eq!(o.key_detection, KeyDetection::Yin);
    assert!(o.write_key_to_metadata);
    let o = ScanOptions::from_settings(Some("ks"), Some("yes"));
    assert_eq!(o.key_detection, KeyDetection::Ks);
    assert!(!o.write_key_to_metadata);
    let o = ScanOptions::from_settings(Some("YIN"), None);
    assert_eq!(o.key_detection, KeyDetection::Off);
    let o = ScanOptions::from_settings(None, None);
    assert_eq!(o.key_detection, KeyDetection::Off);
    assert!(!o.write_key_to_metadata);
}

// --- progress and tally ---

#[test]
fn progress_reports_first_and_last_of_three() {
    let names = ["file0.wav", "file1.wav", "file2.wav"];
    let calls: Vec<(usize, usize)> = (0..3)
        .filter_map(|i| progress_update(i, 3, names[i]))
        .map(|p| (p.current, p.total))
        .collect();
    assert_eq!(calls, vec![(1, 3), (3, 3)]);
    let p = progress_update(2, 3, "file2.wav").unwrap();
    assert_eq!(p.filename, "file2.wav");
}

#[test]
fn progress_every_twentieth_file() {
    let due: Vec<usize> = (0..45).filter(|&i| progress_update(i, 45, "f").is_some()).collect();
    assert_eq!(due, vec![0, 20, 40, 44]);
}

#[test]
fn tally_counts_added_and_skipped() {
    let c = ScanComplete::from_outcomes(&vec![true, true]);
    assert_eq!((c.added, c.skipped), (2, 0));
    let c = ScanComplete::from_outcomes(&vec![false, false]);
    assert_eq!((c.added, c.skipped), (0, 2));
    let c = ScanComplete::from_outcomes(&vec![true, false, true]);
    assert_eq!((c.added, c.skipped), (2, 1));
}

// --- per-file decisions ---

fn meta(key: Option<&str>, sample_type: Option<&str>) -> InferredMeta {
    InferredMeta {
        duration_ms: None,
        bpm: BpmSource::Unknown,
        musical_key: key.map(|k| k.to_string()),
        key_source: key.map(|_| KeySource::Filename),
        category: None,
        sample_type: sample_type.map(|t| t.to_string()),
    }
}

fn opts(key_detection: KeyDetection, write: bool) -> ScanOptions {
    ScanOptions { key_detection, write_key_to_metadata: write }
}

#[test]
fn detection_plan_rules() {
    let one_shot = meta(None, Some("one-shot"));
    let looped = meta(None, Some("loop"));
    let keyed = meta(Some("Cm"), Some("one-shot"));
    assert_eq!(key_detection_plan(&one_shot, opts(KeyDetection::Off, false)), DetectionPlan::Skip);
    assert_eq!(key_detection_plan(&one_shot, opts(KeyDetection::Yin, false)), DetectionPlan::Yin);
    assert_eq!(key_detection_plan(&looped, opts(KeyDetection::Yin, false)), DetectionPlan::Skip);
    assert_eq!(key_detection_plan(&looped, opts(KeyDetection::Ks, false)), DetectionPlan::Ks);
    assert_eq!(key_detection_plan(&keyed, opts(KeyDetection::Yin, false)), DetectionPlan::Skip);
    assert_eq!(key_detection_plan(&keyed, opts(KeyDetection::Ks, false)), DetectionPlan::Skip);
}

#[test]
fn detected_key_is_adopted() {
    let mut m = meta(None, Some("one-shot"));
    adopt_detected_key(&mut m, DetectionPlan::Yin, Some("A".to_string()));
    assert_eq!(m.musical_key.as_deref(), Some("A"));
    assert_eq!(m.key_source, Some(KeySource::AudioPitch));
    let mut m = meta(None, Some("one-shot"));
    adopt_detected_key(&mut m, DetectionPlan::Ks, None);
    assert!(m.musical_key.is_none());
    assert!(m.key_source.is_none());
    let mut m = meta(Some("Cm"), Some("one-shot"));
    adopt_detected_key(&mut m, DetectionPlan::Skip, Some("A".to_string()));
    assert_eq!(m.musical_key.as_deref(), Some("Cm"));
    assert_eq!(m.key_source, Some(KeySource::Filename));
}

#[test]
fn key_written_back_only_when_asked() {
    let m = infer_metadata("/tmp/pad_Am_loop.wav", None);
    assert_eq!(key_to_write(&m, opts(KeyDetection::Off, true)).as_deref(), Some("Am"));
    assert_eq!(key_to_write(&m, opts(KeyDetection::Off, false)), None);
    let m = infer_metadata("/tmp/kick_128bpm.wav", None);
    assert_eq!(key_to_write(&m, opts(KeyDetection::Off, true)), None);
}

#[test]
fn listed_name_of_a_path() {
    assert_eq!(sample_filename("/a/b/kick.wav"), "kick.wav");
    assert_eq!(sample_filename("kick.wav"), "kick.wav");
    assert_eq!(sample_filename("/"), "/");
}

#[test]
fn audio_extensions_in_lower_case() {
    for ext in ["wav", "aif", "aiff", "flac", "mp3", "ogg", "opus"] {
        assert!(is_audio_extension(ext), "{:?}", ext);
    }
    assert!(!is_audio_extension("WAV"));
    assert!(!is_audio_extension("txt"));
    assert!(!is_audio_extension(""));
}
