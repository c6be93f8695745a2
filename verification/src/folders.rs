//! The names of the folders in which the files of a project are kept.

use vstd::prelude::*;
use crate::text::{chars_of, push_signed, signed_decimal};

verus! {

/// Whether a character has the Unicode property `White_Space`.
pub uninterp spec fn is_white_space(c: char) -> bool;

/// `char::is_whitespace` tells whether the character has the Unicode
/// property `White_Space`.
pub assume_specification[ char::is_whitespace ](c: char) -> (white: bool)
    ensures
        white == is_white_space(c),
;

/// A character that a file system does not take in a name.
pub open spec fn is_forbidden(c: char) -> bool {
    c == '/' || c == '\\' || c == ':' || c == '*' || c == '?' || c == '"' || c == '<' || c == '>'
        || c == '|'
}

/// The character that stands for `c` in a folder's name.
pub open spec fn replaced_char(c: char) -> char {
    if is_forbidden(c) {
        '_'
    } else {
        c
    }
}

/// The text with an underscore for every forbidden character.
pub open spec fn replaced(name: Seq<char>) -> Seq<char> {
    name.map_values(|c: char| replaced_char(c))
}

/// The number of characters at the start of the text that `strip` takes.
pub open spec fn leading(s: Seq<char>, strip: spec_fn(char) -> bool) -> nat
    decreases s.len(),
{
    if s.len() > 0 && strip(s[0]) {
        1 + leading(s.drop_first(), strip)
    } else {
        0
    }
}

/// The number of characters at the end of the text that `strip` takes.
pub open spec fn trailing(s: Seq<char>, strip: spec_fn(char) -> bool) -> nat
    decreases s.len(),
{
    if s.len() > 0 && strip(s.last()) {
        1 + trailing(s.drop_last(), strip)
    } else {
        0
    }
}

/// The text without the characters at its start and at its end that
/// `strip` takes.
pub open spec fn trimmed(s: Seq<char>, strip: spec_fn(char) -> bool) -> Seq<char> {
    let rest = s.skip(leading(s, strip) as int);
    rest.take(rest.len() - trailing(rest, strip))
}

/// The name of the folder for a project called `name`: forbidden
/// characters are replaced, white space is taken from both ends, then full
/// stops are taken from both ends; a name of which nothing is left is
/// `unnamed_project`.
pub open spec fn sanitized(name: Seq<char>) -> Seq<char> {
    let kept = trimmed(
        trimmed(replaced(name), |c: char| is_white_space(c)),
        |c: char| c == '.',
    );
    if kept.len() == 0 {
        "unnamed_project"@
    } else {
        kept
    }
}

proof fn lemma_leading(s: Seq<char>, strip: spec_fn(char) -> bool, n: int)
    requires
        0 <= n <= s.len(),
        forall|k: int| 0 <= k < n ==> strip(#[trigger] s[k]),
        n == s.len() || !strip(s[n]),
    ensures
        leading(s, strip) == n,
    decreases n,
{
    if n > 0 {
        let rest = s.drop_first();
        assert forall|k: int| 0 <= k < n - 1 implies strip(#[trigger] rest[k]) by {
            assert(rest[k] == s[k + 1]);
        }
        if n < s.len() {
            assert(rest[n - 1] == s[n]);
        }
        lemma_leading(rest, strip, n - 1);
    }
}

proof fn lemma_trailing(s: Seq<char>, strip: spec_fn(char) -> bool, n: int)
    requires
        0 <= n <= s.len(),
        forall|k: int| s.len() - n <= k < s.len() ==> strip(#[trigger] s[k]),
        n == s.len() || !strip(s[s.len() - n - 1]),
    ensures
        trailing(s, strip) == n,
    decreases n,
{
    if n > 0 {
        let rest = s.drop_last();
        assert(s.last() == s[s.len() - 1]);
        assert forall|k: int| rest.len() - (n - 1) <= k < rest.len() implies strip(
            #[trigger] rest[k],
        ) by {
            assert(rest[k] == s[k]);
        }
        if n < s.len() {
            assert(rest[rest.len() - (n - 1) - 1] == s[s.len() - n - 1]);
        }
        lemma_trailing(rest, strip, n - 1);
    } else if s.len() > 0 {
        assert(s.last() == s[s.len() - 1]);
    }
}

fn replacement(c: char) -> (r: char)
    ensures
        r == replaced_char(c),
{
    if c == '/' || c == '\\' || c == ':' || c == '*' || c == '?' || c == '"' || c == '<' || c
        == '>' || c == '|' {
        '_'
    } else {
        c
    }
}

/// The characters of `s` without the white space at both ends.
fn trim_white_space(s: &Vec<char>) -> (kept: Vec<char>)
    ensures
        kept@ == trimmed(s@, |c: char| is_white_space(c)),
{
    let ghost strip = |c: char| is_white_space(c);
    let mut from: usize = 0;
    while from < s.len() && s[from].is_whitespace()
        invariant
            from <= s.len(),
            strip == (|c: char| is_white_space(c)),
            forall|k: int| 0 <= k < from ==> strip(#[trigger] s@[k]),
        decreases s.len() - from,
    {
        from = from + 1;
    }
    let mut until: usize = s.len();
    while until > from && s[until - 1].is_whitespace()
        invariant
            from <= until <= s.len(),
            strip == (|c: char| is_white_space(c)),
            forall|k: int| until <= k < s.len() ==> strip(#[trigger] s@[k]),
        decreases until,
    {
        until = until - 1;
    }
    let mut kept: Vec<char> = Vec::new();
    let mut i: usize = from;
    while i < until
        invariant
            from <= i <= until <= s.len(),
            kept@ == s@.subrange(from as int, i as int),
        decreases until - i,
    {
        kept.push(s[i]);
        assert(s@.subrange(from as int, i + 1) =~= s@.subrange(from as int, i as int).push(
            s@[i as int],
        ));
        i = i + 1;
    }
    proof {
        lemma_leading(s@, strip, from as int);
        let rest = s@.skip(from as int);
        assert forall|k: int| rest.len() - (s.len() - until) <= k < rest.len() implies strip(
            #[trigger] rest[k],
        ) by {
            assert(rest[k] == s@[k + from]);
        }
        if until > from {
            assert(rest[rest.len() - (s.len() - until) - 1] == s@[until - 1]);
        }
        lemma_trailing(rest, strip, s.len() - until);
        assert(kept@ =~= trimmed(s@, strip));
    }
    kept
}

/// The characters of `s` without the full stops at both ends.
fn trim_full_stops(s: &Vec<char>) -> (kept: Vec<char>)
    ensures
        kept@ == trimmed(s@, |c: char| c == '.'),
{
    let ghost strip = |c: char| c == '.';
    let mut from: usize = 0;
    while from < s.len() && s[from] == '.'
        invariant
            from <= s.len(),
            strip == (|c: char| c == '.'),
            forall|k: int| 0 <= k < from ==> strip(#[trigger] s@[k]),
        decreases s.len() - from,
    {
        from = from + 1;
    }
    let mut until: usize = s.len();
    while until > from && s[until - 1] == '.'
        invariant
            from <= until <= s.len(),
            strip == (|c: char| c == '.'),
            forall|k: int| until <= k < s.len() ==> strip(#[trigger] s@[k]),
        decreases until,
    {
        until = until - 1;
    }
    let mut kept: Vec<char> = Vec::new();
    let mut i: usize = from;
    while i < until
        invariant
            from <= i <= until <= s.len(),
            kept@ == s@.subrange(from as int, i as int),
        decreases until - i,
    {
        kept.push(s[i]);
        assert(s@.subrange(from as int, i + 1) =~= s@.subrange(from as int, i as int).push(
            s@[i as int],
        ));
        i = i + 1;
    }
    proof {
        lemma_leading(s@, strip, from as int);
        let rest = s@.skip(from as int);
        assert forall|k: int| rest.len() - (s.len() - until) <= k < rest.len() implies strip(
            #[trigger] rest[k],
        ) by {
            assert(rest[k] == s@[k + from]);
        }
        if until > from {
            assert(rest[rest.len() - (s.len() - until) - 1] == s@[until - 1]);
        }
        lemma_trailing(rest, strip, s.len() - until);
        assert(kept@ =~= trimmed(s@, strip));
    }
    kept
}

/// The name of the folder for a project called `name`.
pub fn sanitize_folder_name(name: &str) -> (folder: String)
    ensures
        folder@ == sanitized(name@),
{
    let chars = chars_of(name);
    let mut clean: Vec<char> = Vec::new();
    let mut i: usize = 0;
    while i < chars.len()
        invariant
            i <= chars.len(),
            clean@ == replaced(chars@.take(i as int)),
        decreases chars.len() - i,
    {
        clean.push(replacement(chars[i]));
        assert(replaced(chars@.take(i + 1)) =~= replaced(chars@.take(i as int)).push(
            replaced_char(chars@[i as int]),
        ));
        i = i + 1;
    }
    assert(chars@.take(i as int) =~= chars@);
    let kept = trim_full_stops(&trim_white_space(&clean));
    if kept.len() == 0 {
        return "unnamed_project".to_owned();
    }
    let mut folder = String::new();
    let mut k: usize = 0;
    while k < kept.len()
        invariant
            k <= kept.len(),
            folder@ == kept@.take(k as int),
        decreases kept.len() - k,
    {
        folder.push(kept[k]);
        assert(kept@.take(k + 1) =~= kept@.take(k as int).push(kept@[k as int]));
        k = k + 1;
    }
    assert(kept@.take(k as int) =~= kept@);
    folder
}

/// The name of the folder of the project `project_id`, as it is called
/// below the root of all projects' files: the folder name of the project's
/// name, an underscore and the project's identifier, which keeps apart the
/// folders of projects of one name.
pub open spec fn project_folder(project_name: Seq<char>, project_id: int) -> Seq<char> {
    sanitized(project_name) + "_"@ + signed_decimal(project_id)
}

/// The name of the folder of a project below the root of all projects'
/// files.
pub fn get_project_folder(project_name: &str, project_id: i32) -> (folder: String)
    ensures
        folder@ == project_folder(project_name@, project_id as int),
{
    let mut folder = sanitize_folder_name(project_name);
    folder.append("_");
    push_signed(&mut folder, project_id as i64);
    folder
}

} // verus!
