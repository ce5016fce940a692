//! Export of samples into a folder tree described by a path template.

use vstd::prelude::*;
use crate::text::{
    chars_of, contains_seq, lemma_missing_first_char, lemma_replace_absent,
    lemma_replace_keeps_prefix, lemma_replace_leading_match, occurs_at, push_text, replace_all,
    replace_chars, string_of,
};

verus! {

/// A sample selected for export.
///
/// `bpm_label` is the tempo as it appears in folder names: the tempo rounded
/// to a whole number and written in decimal, or `None` when the tempo is unknown.
pub struct ExportEntry {
    pub path: String,
    pub filename: String,
    pub category: Option<String>,
    pub tags: Vec<String>,
    pub bpm_label: Option<String>,
    pub musical_key: Option<String>,
    pub sample_type: Option<String>,
}

/// The text of `o`, or `default` when it is absent.
pub open spec fn text_or(o: Option<String>, default: Seq<char>) -> Seq<char> {
    match o {
        Some(s) => s@,
        None => default,
    }
}

/// The first tag of the entry, or `default` when it has none.
pub open spec fn first_tag_or(e: &ExportEntry, default: Seq<char>) -> Seq<char> {
    if e.tags@.len() > 0 {
        e.tags@[0]@
    } else {
        default
    }
}

/// The folder an entry is filed under: its category, else its first tag, else "misc".
pub open spec fn category_label(e: &ExportEntry) -> Seq<char> {
    match e.category {
        Some(c) => c@,
        None => first_tag_or(e, "misc"@),
    }
}

/// The relative destination of `e` under `template`: the placeholders are
/// substituted one after the other, in this order.
pub open spec fn resolved_path(template: Seq<char>, e: &ExportEntry) -> Seq<char> {
    let s1 = replace_all(template, "%filename%"@, e.filename@);
    let s2 = replace_all(s1, "%category%"@, category_label(e));
    let s3 = replace_all(s2, "%key%"@, text_or(e.musical_key, "unknown"@));
    let s4 = replace_all(s3, "%bpm%"@, text_or(e.bpm_label, "unknown"@));
    let s5 = replace_all(s4, "%tags%"@, first_tag_or(e, "misc"@));
    replace_all(s5, "%type%"@, text_or(e.sample_type, "misc"@))
}

/// The characters of `o`, or of `default` when it is absent.
fn chars_or(o: &Option<String>, default: &str) -> (v: Vec<char>)
    ensures
        v@ == text_or(*o, default@),
{
    match o {
        Some(s) => chars_of(s.as_str()),
        None => chars_of(default),
    }
}

/// The characters of the first tag of `e`, or of `default` when it has none.
fn first_tag_chars(e: &ExportEntry, default: &str) -> (v: Vec<char>)
    ensures
        v@ == first_tag_or(e, default@),
{
    if e.tags.len() > 0 {
        chars_of(e.tags[0].as_str())
    } else {
        chars_of(default)
    }
}

/// The relative path at which `entry` is exported under `template`.
pub fn resolve_path(template: &str, entry: &ExportEntry) -> (path: String)
    ensures
        path@ == resolved_path(template@, entry),
{
    proof {
        reveal_strlit("%filename%");
        reveal_strlit("%category%");
        reveal_strlit("%key%");
        reveal_strlit("%bpm%");
        reveal_strlit("%tags%");
        reveal_strlit("%type%");
    }
    let category = match &entry.category {
        Some(c) => chars_of(c.as_str()),
        None => first_tag_chars(entry, "misc"),
    };
    let s = chars_of(template);
    let s = replace_chars(&s, &chars_of("%filename%"), &chars_of(entry.filename.as_str()));
    let s = replace_chars(&s, &chars_of("%category%"), &category);
    let s = replace_chars(&s, &chars_of("%key%"), &chars_or(&entry.musical_key, "unknown"));
    let s = replace_chars(&s, &chars_of("%bpm%"), &chars_or(&entry.bpm_label, "unknown"));
    let s = replace_chars(&s, &chars_of("%tags%"), &first_tag_chars(entry, "misc"));
    let s = replace_chars(&s, &chars_of("%type%"), &chars_or(&entry.sample_type, "misc"));
    string_of(&s)
}

/// A template that holds none of the placeholders is used as it stands.
pub proof fn lemma_template_without_placeholders(template: Seq<char>, e: &ExportEntry)
    requires
        !contains_seq(template, "%filename%"@),
        !contains_seq(template, "%category%"@),
        !contains_seq(template, "%key%"@),
        !contains_seq(template, "%bpm%"@),
        !contains_seq(template, "%tags%"@),
        !contains_seq(template, "%type%"@),
    ensures
        resolved_path(template, e) == template,
{
    reveal_strlit("%filename%");
    reveal_strlit("%category%");
    reveal_strlit("%key%");
    reveal_strlit("%bpm%");
    reveal_strlit("%tags%");
    reveal_strlit("%type%");
    lemma_replace_absent(template, "%filename%"@, e.filename@);
    lemma_replace_absent(template, "%category%"@, category_label(e));
    lemma_replace_absent(template, "%key%"@, text_or(e.musical_key, "unknown"@));
    lemma_replace_absent(template, "%bpm%"@, text_or(e.bpm_label, "unknown"@));
    lemma_replace_absent(template, "%tags%"@, first_tag_or(e, "misc"@));
    lemma_replace_absent(template, "%type%"@, text_or(e.sample_type, "misc"@));
}

/// The template used unless the user sets another: one folder per category.
pub const DEFAULT_TEMPLATE: &'static str = "%category%/%filename%";

/// `s` holds no `%` sign.
pub open spec fn no_percent(s: Seq<char>) -> bool {
    !s.contains('%')
}

/// With the default template, a sample goes into the folder named after its
/// category (or first tag, or "misc"), under its own file name.
pub proof fn lemma_default_template_files_by_category(e: &ExportEntry)
    requires
        no_percent(e.filename@),
        no_percent(category_label(e)),
    ensures
        resolved_path(DEFAULT_TEMPLATE@, e) == category_label(e) + "/"@ + e.filename@,
{
    reveal_strlit("%category%/%filename%");
    reveal_strlit("%filename%");
    reveal_strlit("%category%");
    reveal_strlit("%key%");
    reveal_strlit("%bpm%");
    reveal_strlit("%tags%");
    reveal_strlit("%type%");
    reveal_strlit("/");
    let t = DEFAULT_TEMPLATE@;
    let fname = "%filename%"@;
    let cat = "%category%"@;
    let head = cat + "/"@;
    let f = e.filename@;
    let c = category_label(e);
    assert(t =~= head + fname);
    assert forall|i: int| 0 <= i < head.len() implies !occurs_at(head + fname, fname, i) by {
        if occurs_at(head + fname, fname, i) {
            assert((head + fname).subrange(i, i + fname.len())[0] == (head + fname)[i]);
            assert((head + fname).subrange(i, i + fname.len())[1] == (head + fname)[i + 1]);
        }
    }
    lemma_replace_keeps_prefix(head, fname, fname, f);
    let e0: Seq<char> = seq![];
    assert(fname + e0 =~= fname);
    lemma_replace_leading_match(fname, e0, f);
    assert(f + replace_all(e0, fname, f) =~= f);
    let s1 = replace_all(t, fname, f);
    assert(s1 =~= cat + ("/"@ + f));
    lemma_replace_leading_match(cat, "/"@ + f, c);
    assert(no_percent("/"@ + f));
    lemma_missing_first_char("/"@ + f, cat);
    lemma_replace_absent("/"@ + f, cat, c);
    let s2 = replace_all(s1, cat, c);
    assert(s2 =~= c + "/"@ + f);
    assert(no_percent(s2));
    lemma_missing_first_char(s2, "%key%"@);
    lemma_replace_absent(s2, "%key%"@, text_or(e.musical_key, "unknown"@));
    lemma_missing_first_char(s2, "%bpm%"@);
    lemma_replace_absent(s2, "%bpm%"@, text_or(e.bpm_label, "unknown"@));
    lemma_missing_first_char(s2, "%tags%"@);
    lemma_replace_absent(s2, "%tags%"@, first_tag_or(e, "misc"@));
    lemma_missing_first_char(s2, "%type%"@);
    lemma_replace_absent(s2, "%type%"@, text_or(e.sample_type, "misc"@));
}

/// Text without a `%` sign is left alone by the substitution of a placeholder.
proof fn lemma_plain_text_unchanged(s: Seq<char>, pat: Seq<char>, rep: Seq<char>)
    requires
        no_percent(s),
        pat.len() > 0,
        pat[0] == '%',
    ensures
        replace_all(s, pat, rep) == s,
{
    lemma_missing_first_char(s, pat);
    lemma_replace_absent(s, pat, rep);
}

/// A leading part without a `%` sign is kept by the substitution of a
/// placeholder.
proof fn lemma_plain_prefix_kept(x: Seq<char>, y: Seq<char>, pat: Seq<char>, rep: Seq<char>)
    requires
        no_percent(x),
        pat.len() > 0,
        pat[0] == '%',
    ensures
        replace_all(x + y, pat, rep) == x + replace_all(y, pat, rep),
{
    assert forall|i: int| 0 <= i < x.len() implies !occurs_at(x + y, pat, i) by {
        if occurs_at(x + y, pat, i) {
            assert((x + y).subrange(i, i + pat.len())[0] == (x + y)[i]);
            assert((x + y)[i] == x[i]);
        }
    }
    lemma_replace_keeps_prefix(x, y, pat, rep);
}

/// The placeholders after `%category%`, substituted in text without a `%`
/// sign, leave it alone.
proof fn lemma_later_placeholders_keep_plain_text(s: Seq<char>, e: &ExportEntry)
    requires
        no_percent(s),
    ensures
        replace_all(
            replace_all(
                replace_all(
                    replace_all(s, "%key%"@, text_or(e.musical_key, "unknown"@)),
                    "%bpm%"@,
                    text_or(e.bpm_label, "unknown"@),
                ),
                "%tags%"@,
                first_tag_or(e, "misc"@),
            ),
            "%type%"@,
            text_or(e.sample_type, "misc"@),
        ) == s,
{
    reveal_strlit("%key%");
    reveal_strlit("%bpm%");
    reveal_strlit("%tags%");
    reveal_strlit("%type%");
    lemma_plain_text_unchanged(s, "%key%"@, text_or(e.musical_key, "unknown"@));
    lemma_plain_text_unchanged(s, "%bpm%"@, text_or(e.bpm_label, "unknown"@));
    lemma_plain_text_unchanged(s, "%tags%"@, first_tag_or(e, "misc"@));
    lemma_plain_text_unchanged(s, "%type%"@, text_or(e.sample_type, "misc"@));
}

/// The `%key%` placeholder stands for the sample's key, and for "unknown"
/// when the sample has none.
pub proof fn lemma_key_placeholder(e: &ExportEntry)
    requires
        e.musical_key matches Some(k) ==> no_percent(k@),
    ensures
        e.musical_key is None ==> resolved_path("%key%"@, e) == "unknown"@,
        e.musical_key matches Some(k) ==> resolved_path("%key%"@, e) == k@,
{
    reveal_strlit("%filename%");
    reveal_strlit("%category%");
    reveal_strlit("%key%");
    reveal_strlit("%bpm%");
    reveal_strlit("%tags%");
    reveal_strlit("%type%");
    reveal_strlit("unknown");
    let t = "%key%"@;
    assert(replace_all(t, "%filename%"@, e.filename@) == t);
    assert(replace_all(t, "%category%"@, category_label(e)) == t);
    let kv = text_or(e.musical_key, "unknown"@);
    let empty: Seq<char> = seq![];
    assert(t + empty =~= t);
    lemma_replace_leading_match(t, empty, kv);
    assert(kv + replace_all(empty, t, kv) =~= kv);
    assert(no_percent(kv));
    lemma_plain_text_unchanged(kv, "%bpm%"@, text_or(e.bpm_label, "unknown"@));
    lemma_plain_text_unchanged(kv, "%tags%"@, first_tag_or(e, "misc"@));
    lemma_plain_text_unchanged(kv, "%type%"@, text_or(e.sample_type, "misc"@));
}

/// Under "%category%/%key%/%filename%" a sample is filed in the folder of its
/// category (or first tag, or "misc"), then the folder of its key ("unknown"
/// when it has none), under its own file name.
pub proof fn lemma_category_key_template(e: &ExportEntry)
    requires
        no_percent(e.filename@),
        no_percent(category_label(e)),
        e.musical_key matches Some(k) ==> no_percent(k@),
    ensures
        resolved_path("%category%/%key%/%filename%"@, e) == category_label(e) + "/"@ + (
        match e.musical_key {
            Some(k) => k@,
            None => "unknown"@,
        }) + "/"@ + e.filename@,
{
    reveal_strlit("%category%/%key%/%filename%");
    reveal_strlit("%filename%");
    reveal_strlit("%category%");
    reveal_strlit("%key%");
    reveal_strlit("/%key%/");
    reveal_strlit("unknown");
    reveal_strlit("/");
    let t = "%category%/%key%/%filename%"@;
    let fname = "%filename%"@;
    let cat = "%category%"@;
    let key = "%key%"@;
    let mid = "/%key%/"@;
    let f = e.filename@;
    let c = category_label(e);
    let kv = text_or(e.musical_key, "unknown"@);
    let empty: Seq<char> = seq![];
    // %filename%
    let head = cat + mid;
    assert(t =~= head + fname);
    assert forall|i: int| 0 <= i < head.len() implies !occurs_at(head + fname, fname, i) by {
        if occurs_at(head + fname, fname, i) {
            assert((head + fname).subrange(i, i + fname.len())[0] == (head + fname)[i]);
            assert((head + fname).subrange(i, i + fname.len())[1] == (head + fname)[i + 1]);
        }
    }
    lemma_replace_keeps_prefix(head, fname, fname, f);
    assert(fname + empty =~= fname);
    lemma_replace_leading_match(fname, empty, f);
    assert(f + replace_all(empty, fname, f) =~= f);
    let s1 = replace_all(t, fname, f);
    assert(s1 =~= cat + (mid + f));
    // %category%
    lemma_replace_leading_match(cat, mid + f, c);
    assert forall|i: int| 0 <= i < mid.len() implies !occurs_at(mid + f, cat, i) by {
        if occurs_at(mid + f, cat, i) {
            assert((mid + f).subrange(i, i + cat.len())[0] == (mid + f)[i]);
            assert((mid + f).subrange(i, i + cat.len())[1] == (mid + f)[i + 1]);
        }
    }
    lemma_replace_keeps_prefix(mid, f, cat, c);
    lemma_plain_text_unchanged(f, cat, c);
    let s2 = replace_all(s1, cat, c);
    assert(s2 =~= (c + "/"@) + (key + ("/"@ + f)));
    // %key%
    assert(no_percent(c + "/"@));
    lemma_plain_prefix_kept(c + "/"@, key + ("/"@ + f), key, kv);
    lemma_replace_leading_match(key, "/"@ + f, kv);
    assert(no_percent("/"@ + f));
    lemma_plain_text_unchanged("/"@ + f, key, kv);
    let s3 = replace_all(s2, key, kv);
    assert(s3 =~= c + "/"@ + kv + "/"@ + f);
    assert(no_percent(kv));
    assert(no_percent(s3));
    lemma_later_placeholders_keep_plain_text(s3, e);
    lemma_plain_text_unchanged(s3, "%key%"@, kv);
}

/// What became of one sample during an export.
pub enum CopyOutcome {
    /// The file was copied.
    Copied,
    /// A file already stood at the destination; it was left as it is.
    AlreadyExists,
    /// The folder could not be made or the file could not be copied; the text says why.
    Failed(String),
}

/// The reason given when the folder for a sample cannot be made.
pub open spec fn folder_failure(folder: Seq<char>, reason: Seq<char>) -> Seq<char> {
    "Cannot create folder "@ + folder + ": "@ + reason
}

/// The reason given when a sample cannot be copied.
pub open spec fn copy_failure(source: Seq<char>, reason: Seq<char>) -> Seq<char> {
    "Cannot copy "@ + source + ": "@ + reason
}

/// The text `a + b + c + d`.
fn joined(a: &str, b: &str, c: &str, d: &str) -> (r: String)
    ensures
        r@ == a@ + b@ + c@ + d@,
{
    let mut out: Vec<char> = Vec::new();
    push_text(&mut out, a);
    push_text(&mut out, b);
    push_text(&mut out, c);
    push_text(&mut out, d);
    assert(out@ =~= a@ + b@ + c@ + d@);
    string_of(&out)
}

/// What the attempt to make a sample's destination folder decides: a failure
/// with its reason when the folder could not be made, else nothing yet.
pub fn folder_outcome(folder: &str, made: Result<(), String>) -> (o: Option<CopyOutcome>)
    ensures
        match made {
            Ok(()) => o is None,
            Err(e) => o matches Some(CopyOutcome::Failed(m)) && m@ == folder_failure(folder@, e@),
        },
{
    match made {
        Ok(()) => None,
        Err(e) => Some(CopyOutcome::Failed(joined("Cannot create folder ", folder, ": ", e.as_str()))),
    }
}

/// What became of a sample whose copy was attempted: copied, or a failure
/// with its reason.
pub fn copy_attempt_outcome(source: &str, copied: Result<(), String>) -> (o: CopyOutcome)
    ensures
        match copied {
            Ok(()) => o is Copied,
            Err(e) => o matches CopyOutcome::Failed(m) && m@ == copy_failure(source@, e@),
        },
{
    match copied {
        Ok(()) => CopyOutcome::Copied,
        Err(e) => CopyOutcome::Failed(joined("Cannot copy ", source, ": ", e.as_str())),
    }
}

/// The summary of an export.
pub struct ExportResult {
    pub copied: usize,
    pub skipped: usize,
    pub errors: Vec<String>,
}

/// The number of copied samples among `o`.
pub open spec fn count_copied(o: Seq<CopyOutcome>) -> nat
    decreases o.len(),
{
    if o.len() == 0 {
        0
    } else {
        count_copied(o.drop_last()) + if o.last() is Copied {
            1nat
        } else {
            0nat
        }
    }
}

/// The reasons of the failures among `o`, in order.
pub open spec fn failure_messages(o: Seq<CopyOutcome>) -> Seq<Seq<char>>
    decreases o.len(),
{
    if o.len() == 0 {
        seq![]
    } else {
        match o.last() {
            CopyOutcome::Failed(m) => failure_messages(o.drop_last()).push(m@),
            _ => failure_messages(o.drop_last()),
        }
    }
}

proof fn lemma_failures_are_not_copies(o: Seq<CopyOutcome>)
    ensures
        count_copied(o) + failure_messages(o).len() <= o.len(),
    decreases o.len(),
{
    if o.len() > 0 {
        lemma_failures_are_not_copies(o.drop_last());
    }
}

impl ExportResult {
    /// The summary of an export whose samples had the outcomes `outcomes`, in
    /// order: every sample not copied counts as skipped, and every failure
    /// leaves its reason among the errors.
    pub fn from_outcomes(outcomes: &Vec<CopyOutcome>) -> (r: ExportResult)
        ensures
            r.copied == count_copied(outcomes@),
            r.copied + r.skipped == outcomes@.len(),
            r.errors@.map_values(|m: String| m@) == failure_messages(outcomes@),
            r.errors@.len() <= r.skipped,
    {
        let mut copied: usize = 0;
        let mut skipped: usize = 0;
        let mut errors: Vec<String> = Vec::new();
        let mut i: usize = 0;
        while i < outcomes.len()
            invariant
                i <= outcomes@.len(),
                copied == count_copied(outcomes@.take(i as int)),
                copied + skipped == i,
                errors@.map_values(|m: String| m@) == failure_messages(outcomes@.take(i as int)),
            decreases outcomes.len() - i,
        {
            assert(outcomes@.take(i + 1).drop_last() =~= outcomes@.take(i as int));
            let ghost before = errors@.map_values(|m: String| m@);
            match &outcomes[i] {
                CopyOutcome::Copied => {
                    copied = copied + 1;
                },
                CopyOutcome::AlreadyExists => {
                    skipped = skipped + 1;
                },
                CopyOutcome::Failed(m) => {
                    errors.push(m.clone());
                    skipped = skipped + 1;
                    assert(errors@.map_values(|m: String| m@) =~= before.push(m@));
                },
            }
            i = i + 1;
        }
        assert(outcomes@.take(i as int) =~= outcomes@);
        proof {
            lemma_failures_are_not_copies(outcomes@);
        }
        ExportResult { copied, skipped, errors }
    }
}

} // verus!
