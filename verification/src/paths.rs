//! Path decomposition, as std's `Path` performs it on the target platform.

use vstd::prelude::*;
use crate::text::{chars_of, opt_view, push_range, string_of};

verus! {

/// What `Path::file_name` gives for a path text: its final component, if any.
pub uninterp spec fn path_file_name(path: Seq<char>) -> Option<Seq<char>>;

/// The position of the last `.` in `name`, or -1 when it holds none.
pub open spec fn last_dot(name: Seq<char>) -> int
    decreases name.len(),
{
    if name.len() == 0 {
        -1
    } else if name.last() == '.' {
        name.len() - 1
    } else {
        last_dot(name.drop_last())
    }
}

/// The stem of a file name: the whole name when it holds no `.` or its only
/// `.` is the first character, else the part before the last `.`.
pub open spec fn stem_of_name(name: Seq<char>) -> Seq<char> {
    if last_dot(name) <= 0 {
        name
    } else {
        name.take(last_dot(name))
    }
}

/// The extension of a file name: none when it holds no `.` or its only `.`
/// is the first character, else the part after the last `.`.
pub open spec fn extension_of_name(name: Seq<char>) -> Option<Seq<char>> {
    if last_dot(name) <= 0 {
        None
    } else {
        Some(name.skip(last_dot(name) + 1))
    }
}

/// What `Path::file_stem` gives for a path text: the stem of its file name.
pub open spec fn path_file_stem(path: Seq<char>) -> Option<Seq<char>> {
    match path_file_name(path) {
        Some(name) => Some(stem_of_name(name)),
        None => None,
    }
}

/// What `Path::extension` gives for a path text: the extension of its file name.
pub open spec fn path_extension(path: Seq<char>) -> Option<Seq<char>> {
    match path_file_name(path) {
        Some(name) => extension_of_name(name),
        None => None,
    }
}

/// The final component of `path` (std's `Path::file_name`), as text.
#[verifier::external_body]
pub(crate) fn file_name_of(path: &str) -> (r: Option<String>)
    ensures
        opt_view(r) == path_file_name(path@),
{
    std::path::Path::new(path).file_name().and_then(|n| n.to_str()).map(|n| n.to_string())
}

/// The position of the last `.` in `name`, if any.
fn last_dot_index(name: &Vec<char>) -> (r: Option<usize>)
    ensures
        match r {
            Some(i) => i as int == last_dot(name@) && i < name@.len(),
            None => last_dot(name@) == -1,
        },
{
    let mut i: usize = name.len();
    assert(name@.take(i as int) =~= name@);
    while i > 0
        invariant
            i <= name@.len(),
            last_dot(name@) == last_dot(name@.take(i as int)),
        decreases i,
    {
        assert(name@.take(i as int).drop_last() =~= name@.take(i - 1));
        if name[i - 1] == '.' {
            return Some(i - 1);
        }
        i = i - 1;
    }
    None
}

/// The stem of a file name: the part before its last `.`, or the whole name
/// when it holds no `.` or only a leading one.
pub fn stem_of_file_name(name: &str) -> (r: String)
    ensures
        r@ == stem_of_name(name@),
{
    let chars = chars_of(name);
    match last_dot_index(&chars) {
        Some(i) => if i == 0 {
            String::from_str(name)
        } else {
            let mut stem: Vec<char> = Vec::new();
            push_range(&mut stem, &chars, 0, i);
            assert(stem@ =~= chars@.take(i as int));
            string_of(&stem)
        },
        None => String::from_str(name),
    }
}

/// The extension of a file name: the part after its last `.`, or none when
/// it holds no `.` or only a leading one.
pub fn extension_of_file_name(name: &str) -> (r: Option<String>)
    ensures
        opt_view(r) == extension_of_name(name@),
{
    let chars = chars_of(name);
    match last_dot_index(&chars) {
        Some(i) => if i == 0 {
            None
        } else {
            let mut ext: Vec<char> = Vec::new();
            assert(i < chars.len());
            push_range(&mut ext, &chars, i + 1, chars.len());
            assert(ext@ =~= chars@.skip(i + 1));
            Some(string_of(&ext))
        },
        None => None,
    }
}

/// The stem of the file name of `path` (std's `Path::file_stem`), as text.
pub fn file_stem_of(path: &str) -> (r: Option<String>)
    ensures
        opt_view(r) == path_file_stem(path@),
{
    match file_name_of(path) {
        Some(name) => Some(stem_of_file_name(name.as_str())),
        None => None,
    }
}

/// The extension of the file name of `path` (std's `Path::extension`), as text.
pub fn extension_of(path: &str) -> (r: Option<String>)
    ensures
        opt_view(r) == path_extension(path@),
{
    match file_name_of(path) {
        Some(name) => extension_of_file_name(name.as_str()),
        None => None,
    }
}

} // verus!
