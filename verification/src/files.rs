//! The names under which the versions of a project's file are stored, and
//! the event that records an upload.

use vstd::prelude::*;
use crate::text::{chars_of, push_signed, signed_decimal};

verus! {

/// The text ends with a full stop and `extension`.
pub open spec fn has_extension(name: Seq<char>, extension: Seq<char>) -> bool {
    name.len() >= extension.len() + 1 && name.subrange(
        name.len() - extension.len() - 1,
        name.len() as int,
    ) == seq!['.'] + extension
}

/// The name without its extension, where it ends with a full stop and
/// `extension`; else the name.
pub open spec fn stem_of(name: Seq<char>, extension: Seq<char>) -> Seq<char> {
    if has_extension(name, extension) {
        name.take(name.len() - extension.len() - 1)
    } else {
        name
    }
}

/// The name under which the version `version` of a file is stored: the
/// first version under the file's own name, a later one with the moment of
/// the upload before the extension, or at the end where there is none.
pub open spec fn stored_name(
    original_name: Seq<char>,
    extension: Option<Seq<char>>,
    version: int,
    stamp: Seq<char>,
) -> Seq<char> {
    if version > 1 {
        match extension {
            Some(ext) => stem_of(original_name, ext) + "_"@ + stamp + "."@ + ext,
            None => original_name + "_"@ + stamp,
        }
    } else {
        original_name
    }
}

/// The version that follows `current`, where there is one.
pub fn next_file_version(current: i32) -> (next: Option<i32>)
    ensures
        current < i32::MAX ==> next == Some((current + 1) as i32),
        current == i32::MAX ==> next is None,
{
    if current < i32::MAX {
        Some(current + 1)
    } else {
        None
    }
}

/// The characters of a name without its extension.
fn stem_chars(name: &Vec<char>, extension: &Vec<char>) -> (stem: Vec<char>)
    ensures
        stem@ == stem_of(name@, extension@),
{
    let mut fits = name.len() > extension.len();
    let start: usize = if fits {
        name.len() - extension.len() - 1
    } else {
        0
    };
    if fits {
        if name[start] != '.' {
            fits = false;
            assert(name@.subrange(start as int, name.len() as int)[0] == name@[start as int]);
            assert((seq!['.'] + extension@)[0] == '.');
        } else {
            let mut i: usize = 0;
            while fits && i < extension.len()
                invariant
                    i <= extension.len(),
                    start + 1 + extension.len() == name.len(),
                    name@[start as int] == '.',
                    fits ==> forall|k: int| 0 <= k < i ==> name@[start + 1 + k] == extension@[k],
                    !fits ==> !has_extension(name@, extension@),
                decreases extension.len() - i,
            {
                if name[start + 1 + i] != extension[i] {
                    fits = false;
                    assert(name@.subrange(start as int, name.len() as int)[1 + i] == name@[start
                        + 1 + i]);
                    assert((seq!['.'] + extension@)[1 + i] == extension@[i as int]);
                    i = extension.len();
                } else {
                    i = i + 1;
                }
            }
            if fits {
                assert(name@.subrange(start as int, name.len() as int) =~= seq!['.']
                    + extension@);
            }
        }
    }
    assert(fits == has_extension(name@, extension@));
    let keep: usize = if fits {
        start
    } else {
        name.len()
    };
    let mut stem: Vec<char> = Vec::new();
    let mut k: usize = 0;
    while k < keep
        invariant
            k <= keep <= name.len(),
            stem@ == name@.take(k as int),
        decreases keep - k,
    {
        stem.push(name[k]);
        assert(name@.take(k + 1) =~= name@.take(k as int).push(name@[k as int]));
        k = k + 1;
    }
    assert(name@.take(name.len() as int) =~= name@);
    stem
}

/// The name under which the version `version` of the file `original_name`
/// is stored after an upload at `stamp`.
pub fn stored_file_name(
    original_name: &str,
    extension: Option<&str>,
    version: i32,
    stamp: &str,
) -> (name: String)
    ensures
        name@ == stored_name(
            original_name@,
            match extension {
                Some(ext) => Some(ext@),
                None => None,
            },
            version as int,
            stamp@,
        ),
{
    if version <= 1 {
        return original_name.to_owned();
    }
    let mut name = String::new();
    match extension {
        Some(ext) => {
            let stem = stem_chars(&chars_of(original_name), &chars_of(ext));
            let mut k: usize = 0;
            while k < stem.len()
                invariant
                    k <= stem.len(),
                    name@ == stem@.take(k as int),
                decreases stem.len() - k,
            {
                name.push(stem[k]);
                assert(stem@.take(k + 1) =~= stem@.take(k as int).push(stem@[k as int]));
                k = k + 1;
            }
            assert(stem@.take(k as int) =~= stem@);
            name.append("_");
            name.append(stamp);
            name.append(".");
            name.append(ext);
        },
        None => {
            name.append(original_name);
            name.append("_");
            name.append(stamp);
            assert(name@ =~= original_name@ + "_"@ + stamp@);
        },
    }
    name
}

/// The title of the event that records the upload of the version
/// `version` of a file: a new file, or an update of one.
pub open spec fn upload_title(original_name: Seq<char>, version: int) -> Seq<char> {
    if version > 1 {
        "更新文件: "@ + original_name
    } else {
        "新增文件: "@ + original_name
    }
}

/// The description of the event that records the upload of the version
/// `version` of a file.
pub open spec fn upload_description(version: int) -> Seq<char> {
    "文件版本: v"@ + signed_decimal(version)
}

/// Writes the title of the event that records an upload.
pub fn file_event_title(original_name: &str, version: i32) -> (title: String)
    ensures
        title@ == upload_title(original_name@, version as int),
{
    let mut title = String::new();
    if version > 1 {
        title.append("更新文件: ");
    } else {
        title.append("新增文件: ");
    }
    title.append(original_name);
    assert(title@ =~= upload_title(original_name@, version as int));
    title
}

/// Writes the description of the event that records an upload.
pub fn file_event_description(version: i32) -> (description: String)
    ensures
        description@ == upload_description(version as int),
{
    let mut description = String::new();
    description.append("文件版本: v");
    push_signed(&mut description, version as i64);
    description
}

} // verus!
