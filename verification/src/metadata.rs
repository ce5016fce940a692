//! Metadata inferred from a sample's path and file name: category, tempo,
//! musical key, and how they combine with the tags embedded in the file.

use vstd::prelude::*;
use crate::paths::{file_name_of, file_stem_of, path_file_name, path_file_stem};
use crate::text::{
    ascii_lower, ascii_lowercase, ascii_upper, ascii_uppercase, is_ascii_char, is_ascii_text,
    lemma_ascii_case_char, lemma_lowercase_of_ascii_uppercase, lemma_missing_first_char, occurs_at,
    chars_of, contains_chars, contains_seq, ends_with_chars, ends_with_seq, lowercase, opt_view,
    push_range, string_of, to_lowercase,
};

verus! {

/// Where a sample's musical key came from.
#[derive(Debug, PartialEq, Eq, Structural, Clone, Copy)]
pub enum KeySource {
    Metadata,
    Filename,
    AudioPitch,
}

/// The category rules, in priority order: a path whose lowercase form contains
/// the pattern (first component) belongs to the category (second component).
pub open spec fn category_rules() -> Seq<(Seq<char>, Seq<char>)> {
    seq![
        ("kick"@, "kick"@),
        ("snare"@, "snare"@),
        ("clap"@, "snare"@),
        ("/hat"@, "hat"@),
        ("\\hat"@, "hat"@),
        ("hihat"@, "hat"@),
        ("hi-hat"@, "hat"@),
        ("loop"@, "loop"@),
        ("vocal"@, "vocal"@),
        ("voice"@, "vocal"@),
        ("/fx/"@, "fx"@),
        ("\\fx\\"@, "fx"@),
        ("effect"@, "fx"@),
        ("/bass/"@, "bass"@),
        ("\\bass\\"@, "bass"@),
        ("basslne"@, "bass"@),
        ("perc"@, "perc"@),
        ("tom"@, "perc"@),
    ]
}

/// The number of category rules.
pub const CATEGORY_RULE_COUNT: usize = 18;

/// The category of the first rule, from rule `i` on, whose pattern occurs in `lower`.
pub open spec fn category_from_rule(lower: Seq<char>, i: nat) -> Option<Seq<char>>
    decreases 18 - i,
{
    if i >= 18 {
        None
    } else if contains_seq(lower, category_rules()[i as int].0) {
        Some(category_rules()[i as int].1)
    } else {
        category_from_rule(lower, i + 1)
    }
}

/// The category inferred for a path: that of the first rule whose pattern
/// occurs in the lowercase path.
pub open spec fn inferred_category(path: Seq<char>) -> Option<Seq<char>> {
    category_from_rule(lowercase(path), 0)
}

/// The category names that inference can produce.
pub open spec fn known_categories() -> Set<Seq<char>> {
    set!["kick"@, "snare"@, "hat"@, "loop"@, "vocal"@, "fx"@, "bass"@, "perc"@]
}

/// Category rule `i` as (pattern, category).
fn category_rule(i: usize) -> (r: (&'static str, &'static str))
    requires
        i < CATEGORY_RULE_COUNT,
    ensures
        (r.0@, r.1@) == category_rules()[i as int],
{
    match i {
        0 => ("kick", "kick"),
        1 => ("snare", "snare"),
        2 => ("clap", "snare"),
        3 => ("/hat", "hat"),
        4 => ("\\hat", "hat"),
        5 => ("hihat", "hat"),
        6 => ("hi-hat", "hat"),
        7 => ("loop", "loop"),
        8 => ("vocal", "vocal"),
        9 => ("voice", "vocal"),
        10 => ("/fx/", "fx"),
        11 => ("\\fx\\", "fx"),
        12 => ("effect", "fx"),
        13 => ("/bass/", "bass"),
        14 => ("\\bass\\", "bass"),
        15 => ("basslne", "bass"),
        16 => ("perc", "perc"),
        _ => ("tom", "perc"),
    }
}

/// The category for a lowercase path text: that of the first rule whose
/// pattern occurs in it.
pub fn category_for_lowercase(lower_path: &str) -> (r: Option<String>)
    ensures
        opt_view(r) == category_from_rule(lower_path@, 0),
{
    let lower = chars_of(lower_path);
    let mut i: usize = 0;
    while i < CATEGORY_RULE_COUNT
        invariant
            i <= CATEGORY_RULE_COUNT,
            lower@ == lower_path@,
            category_from_rule(lower@, 0) == category_from_rule(lower@, i as nat),
        decreases CATEGORY_RULE_COUNT - i,
    {
        let (pattern, category) = category_rule(i);
        if contains_chars(&lower, &chars_of(pattern)) {
            return Some(String::from_str(category));
        }
        i = i + 1;
    }
    None
}

/// The category of a sample, inferred from words in its path.
pub fn infer_category_from_path(path: &str) -> (r: Option<String>)
    ensures
        opt_view(r) == inferred_category(path@),
{
    let lower_text = to_lowercase(path);
    category_for_lowercase(lower_text.as_str())
}

/// Every inferred category is one of the known category names.
pub proof fn lemma_inferred_category_is_known(path: Seq<char>)
    ensures
        inferred_category(path) matches Some(c) ==> known_categories().contains(c),
{
    lemma_category_from_rule_is_known(lowercase(path), 0);
}

/// Category inference ignores the case of ASCII letters: raising every
/// letter of an ASCII path leaves its inferred category unchanged.
pub proof fn lemma_category_ignores_ascii_case(path: Seq<char>)
    requires
        is_ascii_text(path),
    ensures
        inferred_category(ascii_uppercase(path)) == inferred_category(path),
{
    lemma_lowercase_of_ascii_uppercase(path);
}

/// `c`, with a backslash turned into a slash.
pub open spec fn forward_slash(c: char) -> char {
    if c == '\\' {
        '/'
    } else {
        c
    }
}

/// `s` with every backslash turned into a slash.
pub open spec fn with_forward_slashes(s: Seq<char>) -> Seq<char> {
    s.map_values(|c: char| forward_slash(c))
}

/// In a text without slashes, a pattern without slashes occurs exactly where
/// its slash form occurs in the slash form of the text.
proof fn lemma_occurrences_alike(t: Seq<char>, pat: Seq<char>)
    requires
        !t.contains('/'),
        !pat.contains('/'),
    ensures
        contains_seq(with_forward_slashes(t), with_forward_slashes(pat)) == contains_seq(t, pat),
{
    let wt = with_forward_slashes(t);
    let wp = with_forward_slashes(pat);
    let n = pat.len();
    assert forall|i: int| #[trigger] occurs_at(wt, wp, i) == occurs_at(t, pat, i) by {
        if 0 <= i && i + n <= t.len() {
            if occurs_at(t, pat, i) {
                assert forall|k: int| 0 <= k < n implies wt.subrange(i, i + n)[k] == wp[k] by {
                    assert(t.subrange(i, i + n)[k] == pat[k]);
                }
                assert(wt.subrange(i, i + n) =~= wp);
            }
            if occurs_at(wt, wp, i) {
                assert forall|k: int| 0 <= k < n implies t.subrange(i, i + n)[k] == pat[k] by {
                    assert(wt.subrange(i, i + n)[k] == wp[k]);
                    assert(t[i + k] != '/');
                    assert(pat[k] != '/');
                }
                assert(t.subrange(i, i + n) =~= pat);
            }
        }
    }
    if contains_seq(t, pat) {
        let i = choose|i: int| occurs_at(t, pat, i);
        assert(occurs_at(wt, wp, i));
    }
    if contains_seq(wt, wp) {
        let i = choose|i: int| occurs_at(wt, wp, i);
        assert(occurs_at(t, pat, i));
    }
}

proof fn lemma_plain_pattern_alike(t: Seq<char>, pat: Seq<char>)
    requires
        !t.contains('/'),
        !pat.contains('/'),
        !pat.contains('\\'),
    ensures
        contains_seq(with_forward_slashes(t), pat) == contains_seq(t, pat),
{
    assert(with_forward_slashes(pat) =~= pat);
    lemma_occurrences_alike(t, pat);
}

proof fn lemma_back_pattern_alike(t: Seq<char>, back: Seq<char>, fwd: Seq<char>)
    requires
        !t.contains('/'),
        !back.contains('/'),
        with_forward_slashes(back) == fwd,
    ensures
        contains_seq(with_forward_slashes(t), fwd) == contains_seq(t, back),
{
    lemma_occurrences_alike(t, back);
}

proof fn lemma_slash_pattern_absent(t: Seq<char>, pat: Seq<char>)
    requires
        !t.contains('/'),
        pat.len() > 0,
        pat[0] == '/',
    ensures
        !contains_seq(t, pat),
{
    lemma_missing_first_char(t, pat);
}

proof fn lemma_backslash_pattern_absent(t: Seq<char>, pat: Seq<char>)
    requires
        pat.len() > 0,
        pat[0] == '\\',
    ensures
        !contains_seq(with_forward_slashes(t), pat),
{
    let w = with_forward_slashes(t);
    assert(!w.contains('\\')) by {
        if w.contains('\\') {
            let j = choose|j: int| 0 <= j < w.len() && w[j] == '\\';
            assert(w[j] == forward_slash(t[j]));
        }
    }
    lemma_missing_first_char(w, pat);
}

/// Both separators are read alike: in a lowercase text without slashes,
/// turning every backslash into a slash does not change the category rule
/// that matches first ("c:\\kits\\hats\\x.wav" is filed as "c:/kits/hats/x.wav").
pub proof fn lemma_separators_categorized_alike(lower: Seq<char>)
    requires
        !lower.contains('/'),
    ensures
        category_from_rule(with_forward_slashes(lower), 0) == category_from_rule(lower, 0),
{
    reveal_strlit("/bass/");
    reveal_strlit("/fx/");
    reveal_strlit("/hat");
    reveal_strlit("\\bass\\");
    reveal_strlit("\\fx\\");
    reveal_strlit("\\hat");
    reveal_strlit("bass");
    reveal_strlit("basslne");
    reveal_strlit("clap");
    reveal_strlit("effect");
    reveal_strlit("fx");
    reveal_strlit("hat");
    reveal_strlit("hi-hat");
    reveal_strlit("hihat");
    reveal_strlit("kick");
    reveal_strlit("loop");
    reveal_strlit("perc");
    reveal_strlit("snare");
    reveal_strlit("tom");
    reveal_strlit("vocal");
    reveal_strlit("voice");
    let fwd = with_forward_slashes(lower);
    assert(with_forward_slashes("\\hat"@) =~= "/hat"@);
    assert(with_forward_slashes("\\fx\\"@) =~= "/fx/"@);
    assert(with_forward_slashes("\\bass\\"@) =~= "/bass/"@);
    assert(category_from_rule(fwd, 18) == category_from_rule(lower, 18));
    lemma_plain_pattern_alike(lower, "tom"@);
    assert(category_from_rule(fwd, 17) == category_from_rule(lower, 17));
    lemma_plain_pattern_alike(lower, "perc"@);
    assert(category_from_rule(fwd, 16) == category_from_rule(lower, 16));
    lemma_plain_pattern_alike(lower, "basslne"@);
    assert(category_from_rule(fwd, 15) == category_from_rule(lower, 15));
    lemma_backslash_pattern_absent(lower, "\\bass\\"@);
    assert(category_from_rule(fwd, 14) == category_from_rule(fwd, 15));
    assert(category_from_rule(lower, 14) == if contains_seq(lower, "\\bass\\"@) {
        Some("bass"@)
    } else {
        category_from_rule(lower, 15)
    });
    lemma_slash_pattern_absent(lower, "/bass/"@);
    lemma_back_pattern_alike(lower, "\\bass\\"@, "/bass/"@);
    assert(category_from_rule(fwd, 13) == category_from_rule(lower, 13));
    lemma_plain_pattern_alike(lower, "effect"@);
    assert(category_from_rule(fwd, 12) == category_from_rule(lower, 12));
    lemma_backslash_pattern_absent(lower, "\\fx\\"@);
    assert(category_from_rule(fwd, 11) == category_from_rule(fwd, 12));
    assert(category_from_rule(lower, 11) == if contains_seq(lower, "\\fx\\"@) {
        Some("fx"@)
    } else {
        category_from_rule(lower, 12)
    });
    lemma_slash_pattern_absent(lower, "/fx/"@);
    lemma_back_pattern_alike(lower, "\\fx\\"@, "/fx/"@);
    assert(category_from_rule(fwd, 10) == category_from_rule(lower, 10));
    lemma_plain_pattern_alike(lower, "voice"@);
    assert(category_from_rule(fwd, 9) == category_from_rule(lower, 9));
    lemma_plain_pattern_alike(lower, "vocal"@);
    assert(category_from_rule(fwd, 8) == category_from_rule(lower, 8));
    lemma_plain_pattern_alike(lower, "loop"@);
    assert(category_from_rule(fwd, 7) == category_from_rule(lower, 7));
    lemma_plain_pattern_alike(lower, "hi-hat"@);
    assert(category_from_rule(fwd, 6) == category_from_rule(lower, 6));
    lemma_plain_pattern_alike(lower, "hihat"@);
    assert(category_from_rule(fwd, 5) == category_from_rule(lower, 5));
    lemma_backslash_pattern_absent(lower, "\\hat"@);
    assert(category_from_rule(fwd, 4) == category_from_rule(fwd, 5));
    assert(category_from_rule(lower, 4) == if contains_seq(lower, "\\hat"@) {
        Some("hat"@)
    } else {
        category_from_rule(lower, 5)
    });
    lemma_slash_pattern_absent(lower, "/hat"@);
    lemma_back_pattern_alike(lower, "\\hat"@, "/hat"@);
    assert(category_from_rule(fwd, 3) == category_from_rule(lower, 3));
    lemma_plain_pattern_alike(lower, "clap"@);
    assert(category_from_rule(fwd, 2) == category_from_rule(lower, 2));
    lemma_plain_pattern_alike(lower, "snare"@);
    assert(category_from_rule(fwd, 1) == category_from_rule(lower, 1));
    lemma_plain_pattern_alike(lower, "kick"@);
    assert(category_from_rule(fwd, 0) == category_from_rule(lower, 0));
}

/// A Windows path is categorized as the same path written with slashes: for
/// an ASCII path without slashes, turning every backslash into a slash leaves
/// the inferred category unchanged.
pub proof fn lemma_windows_path_categorized_alike(path: Seq<char>)
    requires
        is_ascii_text(path),
        !path.contains('/'),
    ensures
        inferred_category(with_forward_slashes(path)) == inferred_category(path),
{
    let w = with_forward_slashes(path);
    let lower = lowercase(path);
    assert forall|i: int| 0 <= i < w.len() implies is_ascii_char(#[trigger] w[i]) by {
        assert(is_ascii_char(path[i]));
    }
    assert(lowercase(w) =~= with_forward_slashes(lower));
    assert(!lower.contains('/')) by {
        if lower.contains('/') {
            let j = choose|j: int| 0 <= j < lower.len() && lower[j] == '/';
            assert(lower[j] == ascii_lower(path[j]));
        }
    }
    lemma_separators_categorized_alike(lower);
}

proof fn lemma_category_from_rule_is_known(lower: Seq<char>, i: nat)
    ensures
        category_from_rule(lower, i) matches Some(c) ==> known_categories().contains(c),
    decreases 18 - i,
{
    if i < 18 {
        lemma_category_from_rule_is_known(lower, i + 1);
    }
}

/// The pattern that finds a tempo in a file name: two or three digits,
/// optionally a separator, then "bpm", as a whole word, in any case.
pub const BPM_PATTERN: &'static str = "(?i)\\b(\\d{2,3})[_\\s-]?bpm\\b";

/// The pattern that finds a musical key in a file stem: a note A to G, an
/// optional sharp or flat and an optional mode suffix, delimited by the start
/// or end of the stem, an underscore, a space, a dash, or brackets.
pub const KEY_PATTERN: &'static str = "(?i)(?:^|[_\\s\\-(\\[])([A-G][#b]?(?:min(?:or)?|maj(?:or)?|m)?)(?:[_\\s\\-)\\].]|$)";

/// What the regex crate finds for `pattern` in `haystack`: the text of the
/// first capture group of the leftmost match, or `None` when the pattern does
/// not compile, does not match, or its first group takes no part in the match.
pub uninterp spec fn regex_first_group(pattern: Seq<char>, haystack: Seq<char>) -> Option<Seq<char>>;

/// The first capture group of the leftmost match of `pattern` in `haystack`,
/// through `regex::Regex::new`, `Regex::captures` and `Captures::get(1)`.
#[verifier::external_body]
fn first_group(pattern: &str, haystack: &str) -> (r: Option<String>)
    ensures
        opt_view(r) == regex_first_group(pattern@, haystack@),
{
    match regex::Regex::new(pattern) {
        Ok(re) => re.captures(haystack).and_then(|c| c.get(1)).map(|m| m.as_str().to_string()),
        Err(_) => None,
    }
}

/// The slowest tempo accepted from a file name.
pub const MIN_BPM: u32 = 40;

/// The fastest tempo accepted from a file name.
pub const MAX_BPM: u32 = 300;

/// `c` is one of the ASCII digits 0 to 9.
pub open spec fn is_ascii_digit(c: char) -> bool {
    '0' <= c && c <= '9'
}

/// Every character of `s` is an ASCII digit.
pub open spec fn all_ascii_digits(s: Seq<char>) -> bool {
    forall|i: int| 0 <= i < s.len() ==> is_ascii_digit(#[trigger] s[i])
}

/// The number written by the decimal digits `s`.
pub open spec fn decimal_value(s: Seq<char>) -> nat
    decreases s.len(),
{
    if s.len() == 0 {
        0
    } else {
        decimal_value(s.drop_last()) * 10 + ((s.last() as int) - ('0' as int)) as nat
    }
}

/// The tempo written by `digits`: their value when they are ASCII digits
/// whose value lies between `MIN_BPM` and `MAX_BPM`.
pub open spec fn bpm_of_digits(digits: Seq<char>) -> Option<u32> {
    if digits.len() > 0 && all_ascii_digits(digits) && MIN_BPM <= decimal_value(digits)
        <= MAX_BPM {
        Some(decimal_value(digits) as u32)
    } else {
        None
    }
}

/// The tempo written in a file name, if any.
pub open spec fn bpm_from_filename(filename: Seq<char>) -> Option<u32> {
    match regex_first_group(BPM_PATTERN@, filename) {
        Some(digits) => bpm_of_digits(digits),
        None => None,
    }
}

proof fn lemma_decimal_value_prefix(s: Seq<char>, k: int)
    requires
        0 <= k <= s.len(),
        all_ascii_digits(s),
    ensures
        decimal_value(s.take(k)) <= decimal_value(s),
    decreases s.len(),
{
    if k < s.len() {
        let t = s.drop_last();
        assert(all_ascii_digits(t)) by {
            assert forall|i: int| 0 <= i < t.len() implies is_ascii_digit(#[trigger] t[i]) by {
                assert(t[i] == s[i]);
            }
        }
        assert(s.take(k) =~= t.take(k));
        lemma_decimal_value_prefix(t, k);
        assert(is_ascii_digit(s[s.len() - 1]));
    } else {
        assert(s.take(k) =~= s);
    }
}

/// The tempo written by a captured group of digits.
pub fn bpm_from_digits(digits: &str) -> (r: Option<u32>)
    ensures
        r == bpm_of_digits(digits@),
{
    let v = chars_of(digits);
    if v.len() == 0 {
        return None;
    }
    let mut value: u32 = 0;
    let mut i: usize = 0;
    while i < v.len()
        invariant
            i <= v@.len(),
            v@ == digits@,
            value as nat == decimal_value(v@.take(i as int)),
            value <= MAX_BPM,
            all_ascii_digits(v@.take(i as int)),
        decreases v.len() - i,
    {
        let c = v[i];
        if !('0' <= c && c <= '9') {
            assert(!all_ascii_digits(v@)) by {
                assert(!is_ascii_digit(v@[i as int]));
            }
            return None;
        }
        let next: u32 = value * 10 + ((c as u32) - ('0' as u32));
        assert(v@.take(i + 1).drop_last() =~= v@.take(i as int));
        assert(next as nat == decimal_value(v@.take(i + 1)));
        assert(all_ascii_digits(v@.take(i + 1))) by {
            assert forall|j: int| 0 <= j < i + 1 implies is_ascii_digit(#[trigger] v@.take(i + 1)[j]) by {
                if j < i {
                    assert(v@.take(i + 1)[j] == v@.take(i as int)[j]);
                }
            }
        }
        if next > MAX_BPM {
            proof {
                if all_ascii_digits(v@) {
                    lemma_decimal_value_prefix(v@, i + 1);
                }
            }
            return None;
        }
        value = next;
        i = i + 1;
    }
    assert(v@.take(i as int) =~= v@);
    if value < MIN_BPM {
        None
    } else {
        Some(value)
    }
}

/// The tempo written in a file name such as "groove-128bpm.wav".
pub fn infer_bpm_from_filename(filename: &str) -> (r: Option<u32>)
    ensures
        r == bpm_from_filename(filename@),
{
    match first_group(BPM_PATTERN, filename) {
        Some(digits) => bpm_from_digits(digits.as_str()),
        None => None,
    }
}

/// The lowercase key text can be normalized: its first character is a
/// single-byte (ASCII) character.
pub open spec fn is_normalizable(lower: Seq<char>) -> bool {
    lower.len() > 0 && lower[0] <= '\x7f'
}

/// The canonical spelling of a key from its lowercase text: the note in upper
/// case, then the rest, with "minor"/"min" written "m" and "major"/"maj"
/// written "maj".
pub open spec fn normalized_key(lower: Seq<char>) -> Seq<char> {
    let note = ascii_upper(lower[0]);
    let rest = lower.drop_first();
    if ends_with_seq(rest, "minor"@) {
        seq![note] + rest.subrange(0, rest.len() - "minor"@.len()) + "m"@
    } else if ends_with_seq(rest, "min"@) {
        seq![note] + rest.subrange(0, rest.len() - "min"@.len()) + "m"@
    } else if ends_with_seq(rest, "major"@) {
        seq![note] + rest.subrange(0, rest.len() - "major"@.len()) + "maj"@
    } else if ends_with_seq(rest, "maj"@) {
        seq![note] + rest.subrange(0, rest.len() - "maj"@.len()) + "maj"@
    } else {
        seq![note] + rest
    }
}

fn raise_ascii(c: char) -> (u: char)
    ensures
        u == ascii_upper(c),
{
    if 'a' <= c && c <= 'z' {
        ((c as u8) - 32) as char
    } else {
        c
    }
}

/// Appends `rest` without its last `cut` characters, then `suffix`.
fn push_stripped(out: &mut Vec<char>, rest: &Vec<char>, cut: usize, suffix: &str)
    requires
        cut <= rest@.len(),
    ensures
        final(out)@ == old(out)@ + rest@.subrange(0, rest@.len() - cut) + suffix@,
{
    push_range(out, rest, 0, rest.len() - cut);
    let tail = chars_of(suffix);
    let n = tail.len();
    push_range(out, &tail, 0, n);
    assert(tail@.subrange(0, n as int) =~= suffix@);
}

/// The canonical spelling of a lowercase key text, e.g. "c#minor" → "C#m":
/// its first character in upper case, and a trailing "minor"/"min" or
/// "major"/"maj" written "m" or "maj".
pub fn key_spelling(lower_key: &str) -> (key: String)
    requires
        is_normalizable(lower_key@),
    ensures
        key@ == normalized_key(lower_key@),
{
    proof {
        reveal_strlit("minor");
        reveal_strlit("min");
        reveal_strlit("major");
        reveal_strlit("maj");
    }
    let lower = chars_of(lower_key);
    let note = raise_ascii(lower[0]);
    let mut rest: Vec<char> = Vec::new();
    push_range(&mut rest, &lower, 1, lower.len());
    assert(rest@ =~= lower@.drop_first());
    let mut out: Vec<char> = Vec::new();
    out.push(note);
    if ends_with_chars(&rest, &chars_of("minor")) {
        push_stripped(&mut out, &rest, 5, "m");
    } else if ends_with_chars(&rest, &chars_of("min")) {
        push_stripped(&mut out, &rest, 3, "m");
    } else if ends_with_chars(&rest, &chars_of("major")) {
        push_stripped(&mut out, &rest, 5, "maj");
    } else if ends_with_chars(&rest, &chars_of("maj")) {
        push_stripped(&mut out, &rest, 3, "maj");
    } else {
        let n = rest.len();
        push_range(&mut out, &rest, 0, n);
        assert(rest@.subrange(0, n as int) =~= rest@);
    }
    string_of(&out)
}

/// The canonical spelling of a key captured from a file name, e.g. "c#minor" → "C#m".
pub fn normalize_key(raw: &str) -> (key: String)
    requires
        is_normalizable(lowercase(raw@)),
    ensures
        key@ == normalized_key(lowercase(raw@)),
{
    let lower_text = to_lowercase(raw);
    key_spelling(lower_text.as_str())
}

/// Every character of `s` is its own ASCII lowercase.
spec fn is_lower_fixed(s: Seq<char>) -> bool {
    forall|i: int| 0 <= i < s.len() ==> ascii_lower(#[trigger] s[i]) == s[i]
}

/// A text whose first character is lowercase ASCII and the rest lowercase
/// ASCII text lowers, after its first character is raised, back to itself.
proof fn lemma_lowercase_of_raised_first(first: char, body: Seq<char>)
    requires
        is_ascii_char(first),
        ascii_lower(first) == first,
        is_ascii_text(body),
        is_lower_fixed(body),
    ensures
        lowercase(seq![ascii_upper(first)] + body) == seq![first] + body,
{
    lemma_ascii_case_char(first);
    let t = seq![ascii_upper(first)] + body;
    assert forall|i: int| 0 <= i < t.len() implies is_ascii_char(#[trigger] t[i]) by {
        if i > 0 {
            assert(t[i] == body[i - 1]);
        }
    }
    assert forall|i: int| 0 <= i < t.len() implies #[trigger] ascii_lowercase(t)[i]
        == (seq![first] + body)[i] by {
        if i > 0 {
            assert(t[i] == body[i - 1]);
        }
    }
    assert(ascii_lowercase(t) =~= seq![first] + body);
}

/// Lowercase ASCII text, cut short and followed by lowercase ASCII text, is
/// lowercase ASCII text.
proof fn lemma_cut_and_extend_lower_ascii(rest: Seq<char>, k: int, suf: Seq<char>)
    requires
        0 <= k <= rest.len(),
        is_ascii_text(rest),
        is_lower_fixed(rest),
        is_ascii_text(suf),
        is_lower_fixed(suf),
    ensures
        is_ascii_text(rest.subrange(0, rest.len() - k) + suf),
        is_lower_fixed(rest.subrange(0, rest.len() - k) + suf),
{
    let n = rest.len() - k;
    let t = rest.subrange(0, n) + suf;
    assert forall|i: int| 0 <= i < t.len() implies is_ascii_char(#[trigger] t[i])
        && ascii_lower(t[i]) == t[i] by {
        if i < n {
            assert(t[i] == rest[i]);
        } else {
            assert(t[i] == suf[i - n]);
        }
    }
}

/// The key spelling of an ASCII key is stable: spelling it again, after
/// lowering it, gives it back.
pub proof fn lemma_normalize_key_idempotent_on_ascii(raw: Seq<char>)
    requires
        is_ascii_text(raw),
        raw.len() > 0,
    ensures
        is_normalizable(lowercase(normalized_key(lowercase(raw)))),
        normalized_key(lowercase(normalized_key(lowercase(raw)))) == normalized_key(lowercase(raw)),
{
    reveal_strlit("minor");
    reveal_strlit("min");
    reveal_strlit("major");
    reveal_strlit("maj");
    reveal_strlit("m");
    let lower = lowercase(raw);
    assert forall|i: int| 0 <= i < lower.len() implies ascii_lower(#[trigger] lower[i]) == lower[i]
        && is_ascii_char(lower[i]) by {
        lemma_ascii_case_char(raw[i]);
    }
    let first = lower[0];
    let rest = lower.drop_first();
    assert forall|i: int| 0 <= i < rest.len() implies ascii_lower(#[trigger] rest[i]) == rest[i]
        && is_ascii_char(rest[i]) by {
        assert(rest[i] == lower[i + 1]);
    }
    assert(is_ascii_text("m"@) && is_lower_fixed("m"@));
    assert(is_ascii_text("maj"@) && is_lower_fixed("maj"@));
    let out = normalized_key(lower);
    let body = out.drop_first();
    assert(out =~= seq![ascii_upper(first)] + body);
    if ends_with_seq(rest, "minor"@) {
        assert(body =~= rest.subrange(0, rest.len() - 5) + "m"@);
        lemma_cut_and_extend_lower_ascii(rest, 5, "m"@);
    } else if ends_with_seq(rest, "min"@) {
        assert(body =~= rest.subrange(0, rest.len() - 3) + "m"@);
        lemma_cut_and_extend_lower_ascii(rest, 3, "m"@);
    } else if ends_with_seq(rest, "major"@) {
        assert(body =~= rest.subrange(0, rest.len() - 5) + "maj"@);
        lemma_cut_and_extend_lower_ascii(rest, 5, "maj"@);
    } else if ends_with_seq(rest, "maj"@) {
        assert(body =~= rest.subrange(0, rest.len() - 3) + "maj"@);
        lemma_cut_and_extend_lower_ascii(rest, 3, "maj"@);
    } else {
        assert(body =~= rest);
    }
    lemma_lowercase_of_raised_first(first, body);
    let again = seq![first] + body;
    assert(lowercase(out) == again);
    assert(again.drop_first() =~= body);
    assert(again[0] == first);
    if ends_with_seq(rest, "minor"@) || ends_with_seq(rest, "min"@) {
        assert(body.last() == 'm');
        lemma_last_differs(body, "minor"@);
        lemma_last_differs(body, "min"@);
        lemma_last_differs(body, "major"@);
        lemma_last_differs(body, "maj"@);
        assert(normalized_key(again) =~= out);
    } else if ends_with_seq(rest, "major"@) || ends_with_seq(rest, "maj"@) {
        assert(body.last() == 'j');
        lemma_last_differs(body, "minor"@);
        lemma_last_differs(body, "min"@);
        lemma_last_differs(body, "major"@);
        assert(body.subrange(body.len() - 3, body.len() as int) =~= "maj"@);
        assert(body.subrange(0, body.len() - 3) + "maj"@ =~= body);
        assert(normalized_key(again) =~= out);
    } else {
        assert(normalized_key(again) =~= out);
    }
}

/// A text whose last character differs from that of `suf` does not end with `suf`.
proof fn lemma_last_differs(s: Seq<char>, suf: Seq<char>)
    requires
        s.len() > 0,
        suf.len() > 0,
        s.last() != suf.last(),
    ensures
        !ends_with_seq(s, suf),
{
    if ends_with_seq(s, suf) {
        let tail = s.subrange(s.len() - suf.len(), s.len() as int);
        assert(tail[suf.len() - 1] == s.last());
    }
}

/// The part of a file name searched for a key: its stem, or the whole name
/// when it has none.
pub open spec fn key_stem(filename: Seq<char>) -> Seq<char> {
    match path_file_stem(filename) {
        Some(stem) => stem,
        None => filename,
    }
}

/// The key written in a file name, in canonical spelling. A captured key
/// whose lowercase form does not start with a single-byte character gives no
/// key.
pub open spec fn key_from_filename(filename: Seq<char>) -> Option<Seq<char>> {
    match regex_first_group(KEY_PATTERN@, key_stem(filename)) {
        Some(raw) => if is_normalizable(lowercase(raw)) {
            Some(normalized_key(lowercase(raw)))
        } else {
            None
        },
        None => None,
    }
}

/// The musical key written in a file name such as "pad_Am_warm.wav".
pub fn infer_key_from_filename(filename: &str) -> (r: Option<String>)
    ensures
        opt_view(r) == key_from_filename(filename@),
{
    let stem = match file_stem_of(filename) {
        Some(s) => s,
        None => String::from_str(filename),
    };
    match first_group(KEY_PATTERN, stem.as_str()) {
        Some(raw) => {
            let lower_text = to_lowercase(raw.as_str());
            let lower = chars_of(lower_text.as_str());
            if lower.len() > 0 && lower[0] <= '\x7f' {
                Some(normalize_key(raw.as_str()))
            } else {
                None
            }
        },
        None => None,
    }
}

/// What could be read from the tags embedded in an audio file.
pub struct EmbeddedTags {
    /// The length of the audio, in whole milliseconds.
    pub duration_ms: i64,
    /// Whether the tags hold a positive tempo.
    pub has_bpm: bool,
    /// The initial-key tag, as written.
    pub key: Option<String>,
}

/// Where a sample's tempo comes from.
#[derive(Debug, PartialEq, Eq, Structural, Clone, Copy)]
pub enum BpmSource {
    /// The tempo embedded in the file's tags.
    Embedded,
    /// A tempo written in the file name.
    Filename(u32),
    /// No tempo is known.
    Unknown,
}

/// The metadata the library infers for a sample.
pub struct InferredMeta {
    pub duration_ms: Option<i64>,
    pub bpm: BpmSource,
    pub musical_key: Option<String>,
    pub key_source: Option<KeySource>,
    pub category: Option<String>,
    pub sample_type: Option<String>,
}

/// Samples shorter than this many milliseconds are one-shots; longer ones are loops.
pub const ONE_SHOT_LIMIT_MS: i64 = 2000;

/// The sample type for a known length: "one-shot" below `ONE_SHOT_LIMIT_MS`, else "loop".
pub open spec fn sample_type_of(duration_ms: Option<i64>) -> Option<Seq<char>> {
    match duration_ms {
        Some(d) => if d < ONE_SHOT_LIMIT_MS {
            Some("one-shot"@)
        } else {
            Some("loop"@)
        },
        None => None,
    }
}

/// The sample type of a sample with the given length, if the length is known.
pub fn sample_type_for(duration_ms: Option<i64>) -> (r: Option<String>)
    ensures
        opt_view(r) == sample_type_of(duration_ms),
{
    match duration_ms {
        Some(d) => if d < ONE_SHOT_LIMIT_MS {
            Some(String::from_str("one-shot"))
        } else {
            Some(String::from_str("loop"))
        },
        None => None,
    }
}

/// The file name of a path, or the empty text when it has none.
pub open spec fn name_or_empty(path: Seq<char>) -> Seq<char> {
    match path_file_name(path) {
        Some(n) => n,
        None => seq![],
    }
}

/// The file name of `path`, or the empty text when it has none.
pub fn file_name_or_empty(path: &str) -> (r: String)
    ensures
        r@ == name_or_empty(path@),
{
    match file_name_of(path) {
        Some(n) => n,
        None => String::new(),
    }
}

/// The length kept from the tags: only a positive one.
pub open spec fn duration_from(tags: Option<EmbeddedTags>) -> Option<i64> {
    match tags {
        Some(t) => if t.duration_ms > 0 {
            Some(t.duration_ms)
        } else {
            None
        },
        None => None,
    }
}

/// The key kept from the tags: only a non-empty one.
pub open spec fn embedded_key(tags: Option<EmbeddedTags>) -> Option<Seq<char>> {
    match tags {
        Some(t) => match t.key {
            Some(k) => if k@.len() > 0 {
                Some(k@)
            } else {
                None
            },
            None => None,
        },
        None => None,
    }
}

/// The key of a sample and where it came from: the embedded key first, else
/// the key in the file name.
pub open spec fn inferred_key(path: Seq<char>, tags: Option<EmbeddedTags>) -> (
    Option<Seq<char>>,
    Option<KeySource>,
) {
    match embedded_key(tags) {
        Some(k) => (Some(k), Some(KeySource::Metadata)),
        None => match key_from_filename(name_or_empty(path)) {
            Some(k) => (Some(k), Some(KeySource::Filename)),
            None => (None, None),
        },
    }
}

/// The tempo of a sample: the embedded one first, else the one in the file name.
pub open spec fn inferred_bpm(path: Seq<char>, tags: Option<EmbeddedTags>) -> BpmSource {
    if tags matches Some(t) && t.has_bpm {
        BpmSource::Embedded
    } else {
        match bpm_from_filename(name_or_empty(path)) {
            Some(v) => BpmSource::Filename(v),
            None => BpmSource::Unknown,
        }
    }
}

/// The metadata of the sample at `path`, from what its embedded tags gave
/// (`None` when the file could not be read as audio) and from its path.
pub fn infer_metadata(path: &str, tags: Option<EmbeddedTags>) -> (m: InferredMeta)
    ensures
        m.duration_ms == duration_from(tags),
        m.bpm == inferred_bpm(path@, tags),
        (opt_view(m.musical_key), m.key_source) == inferred_key(path@, tags),
        opt_view(m.category) == inferred_category(path@),
        opt_view(m.sample_type) == sample_type_of(duration_from(tags)),
{
    let ghost original = tags;
    let (duration_ms, has_bpm, tag_key) = match tags {
        Some(t) => {
            let d = if t.duration_ms > 0 {
                Some(t.duration_ms)
            } else {
                None
            };
            let k = match t.key {
                Some(k) => if k.unicode_len() > 0 {
                    Some(k)
                } else {
                    None
                },
                None => None,
            };
            (d, t.has_bpm, k)
        },
        None => (None, false, None),
    };
    assert(opt_view(tag_key) == embedded_key(original));
    let filename = file_name_or_empty(path);
    let bpm = if has_bpm {
        BpmSource::Embedded
    } else {
        match infer_bpm_from_filename(filename.as_str()) {
            Some(v) => BpmSource::Filename(v),
            None => BpmSource::Unknown,
        }
    };
    let (musical_key, key_source) = match tag_key {
        Some(k) => (Some(k), Some(KeySource::Metadata)),
        None => match infer_key_from_filename(filename.as_str()) {
            Some(k) => (Some(k), Some(KeySource::Filename)),
            None => (None, None),
        },
    };
    let category = infer_category_from_path(path);
    let sample_type = sample_type_for(duration_ms);
    InferredMeta { duration_ms, bpm, musical_key, key_source, category, sample_type }
}

} // verus!
