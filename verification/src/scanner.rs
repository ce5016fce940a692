//! Decisions taken while scanning a folder of samples: which files are audio,
//! which key detector runs, when progress is reported, and the final tally.

use vstd::prelude::*;
use crate::metadata::{InferredMeta, KeySource};
use crate::paths::{extension_of, file_name_of, path_extension, path_file_name};
use crate::text::{lowercase, opt_view, str_eq, to_lowercase};

verus! {

/// How a sample's key is detected from its audio when neither its tags nor
/// its file name give one.
#[derive(Debug, Clone, Copy, PartialEq, Eq, Structural)]
pub enum KeyDetection {
    Off,
    /// YIN pitch detection: fast, root note only, one-shots only.
    Yin,
    /// Krumhansl-Schmuckler: harmonic analysis, major/minor, any sample type.
    Ks,
}

/// The options of a scan.
#[derive(Debug, Clone, Copy, PartialEq, Eq, Structural)]
pub struct ScanOptions {
    pub key_detection: KeyDetection,
    pub write_key_to_metadata: bool,
}

/// A progress report: `current` files of `total` handled, the last being `filename`.
pub struct ScanProgress {
    pub current: usize,
    pub total: usize,
    pub filename: String,
}

/// The outcome of a scan: files newly added to the library, and files skipped.
pub struct ScanComplete {
    pub added: usize,
    pub skipped: usize,
}

/// The extensions of audio files, in lowercase.
pub open spec fn audio_extensions() -> Seq<Seq<char>> {
    seq!["wav"@, "aif"@, "aiff"@, "flac"@, "mp3"@, "ogg"@, "opus"@]
}

/// The number of audio extensions.
pub const AUDIO_EXTENSION_COUNT: usize = 7;

fn audio_extension(i: usize) -> (e: &'static str)
    requires
        i < AUDIO_EXTENSION_COUNT,
    ensures
        e@ == audio_extensions()[i as int],
{
    match i {
        0 => "wav",
        1 => "aif",
        2 => "aiff",
        3 => "flac",
        4 => "mp3",
        5 => "ogg",
        _ => "opus",
    }
}

/// A path names an audio file: the lowercase form of its extension is one of
/// the audio extensions.
pub open spec fn is_audio_path(path: Seq<char>) -> bool {
    match path_extension(path) {
        Some(ext) => audio_extensions().contains(lowercase(ext)),
        None => false,
    }
}

/// Whether a lowercase extension is one of the audio extensions.
pub fn is_audio_extension(lower_ext: &str) -> (r: bool)
    ensures
        r == audio_extensions().contains(lower_ext@),
{
    let mut i: usize = 0;
    while i < AUDIO_EXTENSION_COUNT
        invariant
            i <= AUDIO_EXTENSION_COUNT,
            forall|j: int| 0 <= j < i ==> audio_extensions()[j] != lower_ext@,
        decreases AUDIO_EXTENSION_COUNT - i,
    {
        if str_eq(lower_ext, audio_extension(i)) {
            assert(audio_extensions()[i as int] == lower_ext@);
            return true;
        }
        i = i + 1;
    }
    assert(!audio_extensions().contains(lower_ext@)) by {
        if audio_extensions().contains(lower_ext@) {
            let j = choose|j: int| 0 <= j < audio_extensions().len() && audio_extensions()[j] == lower_ext@;
            assert(audio_extensions()[j] != lower_ext@);
        }
    }
    false
}

/// Whether `path` names an audio file, judged by its extension in any case.
pub fn is_audio_file(path: &str) -> (r: bool)
    ensures
        r == is_audio_path(path@),
{
    let ext = match extension_of(path) {
        Some(e) => e,
        None => return false,
    };
    let lower = to_lowercase(ext.as_str());
    is_audio_extension(lower.as_str())
}

/// The text of an optional string slice.
pub open spec fn opt_str_view(o: Option<&str>) -> Option<Seq<char>> {
    match o {
        Some(s) => Some(s@),
        None => None,
    }
}

/// The key detection selected by the stored setting: "yin", "ks", or off.
pub open spec fn key_detection_of(setting: Option<Seq<char>>) -> KeyDetection {
    match setting {
        Some(s) => if s == "yin"@ {
            KeyDetection::Yin
        } else if s == "ks"@ {
            KeyDetection::Ks
        } else {
            KeyDetection::Off
        },
        None => KeyDetection::Off,
    }
}

impl ScanOptions {
    /// The scan options given by the stored settings "key_detection" and
    /// "write_key_to_metadata" (absent when not set); keys are written back
    /// only when the latter is exactly "true".
    pub fn from_settings(key_detection: Option<&str>, write_key_to_metadata: Option<&str>) -> (o:
        ScanOptions)
        ensures
            o.key_detection == key_detection_of(opt_str_view(key_detection)),
            o.write_key_to_metadata == (opt_str_view(write_key_to_metadata) == Some("true"@)),
    {
        let detection = match key_detection {
            Some(v) => if str_eq(v, "yin") {
                KeyDetection::Yin
            } else if str_eq(v, "ks") {
                KeyDetection::Ks
            } else {
                KeyDetection::Off
            },
            None => KeyDetection::Off,
        };
        let write = match write_key_to_metadata {
            Some(v) => str_eq(v, "true"),
            None => false,
        };
        ScanOptions { key_detection: detection, write_key_to_metadata: write }
    }
}

/// Progress is reported every this many files.
pub const PROGRESS_INTERVAL: usize = 20;

/// Progress is reported for the file at `index` (counted from 0) of `total`:
/// every `PROGRESS_INTERVAL`-th file, and the last one.
pub open spec fn progress_due(index: int, total: int) -> bool {
    index % (PROGRESS_INTERVAL as int) == 0 || index == total - 1
}

/// The progress report due before handling the file at `index` of `total`, if any.
pub fn progress_update(index: usize, total: usize, filename: &str) -> (r: Option<ScanProgress>)
    requires
        index < total,
    ensures
        r is Some <==> progress_due(index as int, total as int),
        r matches Some(p) ==> p.current == index + 1 && p.total == total && p.filename@
            == filename@,
{
    if index % PROGRESS_INTERVAL == 0 || index == total - 1 {
        Some(ScanProgress { current: index + 1, total, filename: String::from_str(filename) })
    } else {
        None
    }
}

/// The first and the last file of a scan are always reported.
pub proof fn lemma_progress_covers_first_and_last(total: int)
    requires
        total > 0,
    ensures
        progress_due(0, total),
        progress_due(total - 1, total),
{
}

/// The number of `true` values in `s`.
pub open spec fn count_true(s: Seq<bool>) -> nat
    decreases s.len(),
{
    if s.len() == 0 {
        0
    } else {
        count_true(s.drop_last()) + if s.last() {
            1nat
        } else {
            0nat
        }
    }
}

impl ScanComplete {
    /// The tally of a scan, from whether each file handled was newly added.
    pub fn from_outcomes(inserted: &Vec<bool>) -> (c: ScanComplete)
        ensures
            c.added == count_true(inserted@),
            c.added + c.skipped == inserted@.len(),
    {
        let mut added: usize = 0;
        let mut skipped: usize = 0;
        let mut i: usize = 0;
        while i < inserted.len()
            invariant
                i <= inserted@.len(),
                added == count_true(inserted@.take(i as int)),
                added + skipped == i,
            decreases inserted.len() - i,
        {
            assert(inserted@.take(i + 1).drop_last() =~= inserted@.take(i as int));
            if inserted[i] {
                added = added + 1;
            } else {
                skipped = skipped + 1;
            }
            i = i + 1;
        }
        assert(inserted@.take(i as int) =~= inserted@);
        ScanComplete { added, skipped }
    }
}

/// Which key detector runs on a sample.
#[derive(Debug, Clone, Copy, PartialEq, Eq, Structural)]
pub enum DetectionPlan {
    Skip,
    Yin,
    Ks,
}

/// The detector run on a sample: none when a key is already known; YIN only
/// on one-shots; Krumhansl-Schmuckler on any sample.
pub open spec fn detection_plan(
    has_key: bool,
    sample_type: Option<Seq<char>>,
    detection: KeyDetection,
) -> DetectionPlan {
    if has_key {
        DetectionPlan::Skip
    } else {
        match detection {
            KeyDetection::Off => DetectionPlan::Skip,
            KeyDetection::Yin => if sample_type == Some("one-shot"@) {
                DetectionPlan::Yin
            } else {
                DetectionPlan::Skip
            },
            KeyDetection::Ks => DetectionPlan::Ks,
        }
    }
}

/// A key already known from the tags or the file name is never replaced by
/// audio detection, whatever the options.
pub proof fn lemma_known_key_is_kept(
    sample_type: Option<Seq<char>>,
    detection: KeyDetection,
    detected: Option<String>,
)
    ensures
        detection_plan(true, sample_type, detection) == DetectionPlan::Skip,
        !adopts(detection_plan(true, sample_type, detection), detected),
{
}

/// YIN detection runs only on one-shots.
pub proof fn lemma_yin_only_on_one_shots(
    has_key: bool,
    sample_type: Option<Seq<char>>,
    detection: KeyDetection,
)
    ensures
        detection_plan(has_key, sample_type, detection) == DetectionPlan::Yin ==> sample_type
            == Some("one-shot"@),
{
}

/// With no key known yet, the setting alone picks the detector:
/// Krumhansl-Schmuckler runs on every sample whatever its type, YIN exactly on
/// one-shots, and nothing runs when detection is off.
pub proof fn lemma_detector_for_unknown_key(sample_type: Option<Seq<char>>)
    ensures
        detection_plan(false, sample_type, KeyDetection::Ks) == DetectionPlan::Ks,
        detection_plan(false, sample_type, KeyDetection::Off) == DetectionPlan::Skip,
        (detection_plan(false, sample_type, KeyDetection::Yin) == DetectionPlan::Yin) <==> (
        sample_type == Some("one-shot"@)),
        detection_plan(false, sample_type, KeyDetection::Yin) != DetectionPlan::Ks,
{
}

/// With no key known yet and Krumhansl-Schmuckler selected, a key the
/// detector finds is taken, whatever the sample's type.
pub proof fn lemma_ks_key_is_taken(sample_type: Option<Seq<char>>, detected: String)
    ensures
        adopts(detection_plan(false, sample_type, KeyDetection::Ks), Some(detected)),
{
}

/// The key detector to run on a sample with metadata `meta`.
pub fn key_detection_plan(meta: &InferredMeta, opts: ScanOptions) -> (p: DetectionPlan)
    ensures
        p == detection_plan(meta.musical_key is Some, opt_view(meta.sample_type), opts.key_detection),
{
    if meta.musical_key.is_some() {
        return DetectionPlan::Skip;
    }
    match opts.key_detection {
        KeyDetection::Off => DetectionPlan::Skip,
        KeyDetection::Yin => {
            let one_shot = match &meta.sample_type {
                Some(t) => str_eq(t.as_str(), "one-shot"),
                None => false,
            };
            if one_shot {
                DetectionPlan::Yin
            } else {
                DetectionPlan::Skip
            }
        },
        KeyDetection::Ks => DetectionPlan::Ks,
    }
}

/// A detector's key is taken: a detector ran under `plan` and found a key.
pub open spec fn adopts(plan: DetectionPlan, detected: Option<String>) -> bool {
    plan != DetectionPlan::Skip && detected is Some
}

/// Takes the key found by the detector that `plan` ran, recording that it
/// came from the audio; under `Skip`, or when nothing was found, the sample's
/// key and its source stay as they are.
pub fn adopt_detected_key(meta: &mut InferredMeta, plan: DetectionPlan, detected: Option<String>)
    ensures
        adopts(plan, detected) ==> final(meta).musical_key == detected && final(meta).key_source
            == Some(KeySource::AudioPitch),
        !adopts(plan, detected) ==> final(meta).musical_key == old(meta).musical_key
            && final(meta).key_source == old(meta).key_source,
        final(meta).duration_ms == old(meta).duration_ms,
        final(meta).bpm == old(meta).bpm,
        final(meta).category == old(meta).category,
        final(meta).sample_type == old(meta).sample_type,
{
    if plan == DetectionPlan::Skip {
        return;
    }
    if let Some(k) = detected {
        meta.musical_key = Some(k);
        meta.key_source = Some(KeySource::AudioPitch);
    }
}

/// The key to write back into the file's tags: the sample's key, when the
/// options ask for it.
pub fn key_to_write(meta: &InferredMeta, opts: ScanOptions) -> (r: Option<String>)
    ensures
        r == (if opts.write_key_to_metadata {
            meta.musical_key
        } else {
            None
        }),
{
    if opts.write_key_to_metadata {
        match &meta.musical_key {
            Some(k) => Some(k.clone()),
            None => None,
        }
    } else {
        None
    }
}

/// The name a sample is listed under: the file name of its path, or the whole
/// path when it has none.
pub open spec fn listed_name(path: Seq<char>) -> Seq<char> {
    match path_file_name(path) {
        Some(n) => n,
        None => path,
    }
}

/// The name the sample at `path` is listed under.
pub fn sample_filename(path: &str) -> (r: String)
    ensures
        r@ == listed_name(path@),
{
    match file_name_of(path) {
        Some(n) => n,
        None => String::from_str(path),
    }
}

} // verus!
