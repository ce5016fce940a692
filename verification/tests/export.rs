use le_resampler::export::{copy_attempt_outcome, folder_outcome, resolve_path, CopyOutcome, ExportEntry, ExportResult, DEFAULT_TEMPLATE};
use std::path::PathBuf;

fn entry(path: &str, filename: &str, category: Option<&str>, tags: Vec<&str>) -> ExportEntry {
    ExportEntry {
        path: path.to_string(),
        filename: filename.to_string(),
        category: category.map(|s| s.to_string()),
        tags: tags.into_iter().map(|s| s.to_string()).collect(),
        bpm_label: None,
        musical_key: None,
        sample_type: None,
    }
}

const DEFAULT: &str = "%category%/%filename%";

#[test]
fn resolve_path_category_filename() {
    let e = entry("/src/kick_001.wav", "kick_001.wav", Some("kick"), vec![]);
    assert_eq!(PathBuf::from(resolve_path(DEFAULT, &e)), PathBuf::from("kick/kick_001.wav"));
}

#[test]
fn resolve_path_key_nested() {
    let mut e = entry("/src/kick.wav", "kick.wav", Some("kick"), vec![]);
    e.musical_key = Some("Am".to_string());
    assert_eq!(
        PathBuf::from(resolve_path("%category%/%key%/%filename%", &e)),
        PathBuf::from("kick/Am/kick.wav")
    );
}

#[test]
fn resolve_path_bpm_fallback() {
    let e = entry("/src/x.wav", "x.wav", Some("loop"), vec![]);
    assert_eq!(PathBuf::from(resolve_path("%bpm%/%filename%", &e)), PathBuf::from("unknown/x.wav"));
}

#[test]
fn resolve_path_tags_first() {
    let e = entry("/src/loop.wav", "loop.wav", None, vec!["groovy"]);
    assert_eq!(PathBuf::from(resolve_path("%tags%/%filename%", &e)), PathBuf::from("groovy/loop.wav"));
}

#[test]
fn resolve_path_all_none_falls_back() {
    let e = entry("/src/x.wav", "x.wav", None, vec![]);
    assert_eq!(PathBuf::from(resolve_path(DEFAULT, &e)), PathBuf::from("misc/x.wav"));
}

#[test]
fn resolve_path_every_placeholder() {
    let mut e = entry("/src/pad.wav", "pad.wav", None, vec!["warm", "soft"]);
    e.bpm_label = Some("128".to_string());
    e.musical_key = Some("Dm".to_string());
    e.sample_type = Some("loop".to_string());
    assert_eq!(
        resolve_path("%type%/%category%/%tags%/%key%/%bpm%/%filename%", &e),
        "loop/warm/warm/Dm/128/pad.wav"
    );
}

#[test]
fn resolve_path_repeated_placeholder_and_plain_text() {
    let e = entry("/src/a.wav", "a.wav", Some("fx"), vec![]);
    assert_eq!(resolve_path("%category%-%category%/x", &e), "fx-fx/x");
    assert_eq!(resolve_path("fixed/name.wav", &e), "fixed/name.wav");
    assert_eq!(resolve_path("%unknown%/%filename%", &e), "%unknown%/a.wav");
}

#[test]
fn resolve_path_substitutes_in_order() {
    // A file name that itself holds a later placeholder gets it filled in too.
    let e = entry("/src/odd.wav", "%category%.wav", Some("bass"), vec![]);
    assert_eq!(resolve_path("%filename%", &e), "bass.wav");
}

#[test]
fn default_template_is_category_then_filename() {
    assert_eq!(DEFAULT_TEMPLATE, "%category%/%filename%");
}

#[test]
fn export_summary_counts() {
    let outcomes = vec![
        CopyOutcome::Copied,
        CopyOutcome::AlreadyExists,
        CopyOutcome::Failed("Cannot copy /a.wav: missing".to_string()),
        CopyOutcome::Copied,
    ];
    let r = ExportResult::from_outcomes(&outcomes);
    assert_eq!(r.copied, 2);
    assert_eq!(r.skipped, 2);
    assert_eq!(r.errors, vec!["Cannot copy /a.wav: missing".to_string()]);
}

#[test]
fn export_summary_empty() {
    let r = ExportResult::from_outcomes(&Vec::new());
    assert_eq!(r.copied, 0);
    assert_eq!(r.skipped, 0);
    assert!(r.errors.is_empty());
}

#[test]
fn folder_failure_reason() {
    assert!(folder_outcome("/out/kick", Ok(())).is_none());
    match folder_outcome("/out/kick", Err("permission denied".to_string())) {
        Some(CopyOutcome::Failed(m)) => assert_eq!(m, "Cannot create folder /out/kick: permission denied"),
        _ => panic!("expected a failure"),
    }
}

#[test]
fn copy_attempt_reason() {
    assert!(matches!(copy_attempt_outcome("/in/a.wav", Ok(())), CopyOutcome::Copied));
    match copy_attempt_outcome("/in/a.wav", Err("disk full".to_string())) {
        CopyOutcome::Failed(m) => assert_eq!(m, "Cannot copy /in/a.wav: disk full"),
        _ => panic!("expected a failure"),
    }
}
