//! Names for the files that are written: characters that file systems refuse
//! are replaced one for one by full-width look-alikes.

use crate::format::AudioFormat;
use vstd::prelude::*;
use vstd::string::{StrSliceExecFns, StringExecFns};

verus! {

/// `c` is one of the characters that may not stand in a file name:
/// `\ / : * " < > |`.
pub open spec fn is_forbidden(c: char) -> bool {
    c == '\\' || c == '/' || c == ':' || c == '*' || c == '"' || c == '<' || c == '>' || c == '|'
}

/// The character that stands for `c` in a file name: the full-width form of
/// a forbidden character, and `c` itself otherwise.
pub open spec fn substitute(c: char) -> char {
    if c == '\\' {
        '\u{FF3C}'
    } else if c == '/' {
        '\u{FF0F}'
    } else if c == ':' {
        '\u{FF1A}'
    } else if c == '*' {
        '\u{FF0A}'
    } else if c == '"' {
        '\u{FF02}'
    } else if c == '<' {
        '\u{FF1C}'
    } else if c == '>' {
        '\u{FF1E}'
    } else if c == '|' {
        '\u{FF5C}'
    } else {
        c
    }
}

/// `name` with each character replaced by what stands for it.
pub open spec fn sanitized(name: Seq<char>) -> Seq<char> {
    Seq::new(name.len(), |i: int| substitute(name[i]))
}

/// The name of the file that is written for the input named `stem`:
/// the sanitized stem, a dot and the extension of the audio's kind.
pub open spec fn output_name(stem: Seq<char>, format: AudioFormat) -> Seq<char> {
    sanitized(stem) + "."@ + format.extension_spec()
}

/// Sanitizing keeps the number of characters, changes every forbidden
/// character and leaves no forbidden character behind.
pub proof fn lemma_sanitized_is_clean(name: Seq<char>)
    ensures
        sanitized(name).len() == name.len(),
        forall|i: int| 0 <= i < name.len() ==> !is_forbidden(#[trigger] sanitized(name)[i]),
        forall|i: int|
            0 <= i < name.len() && is_forbidden(name[i]) ==> #[trigger] sanitized(name)[i]
                != name[i],
        forall|i: int|
            0 <= i < name.len() && !is_forbidden(name[i]) ==> #[trigger] sanitized(name)[i]
                == name[i],
{
}

/// Calls `String::push`.
///
/// Trusted: the character is appended to the end of the string.
#[verifier::external_body]
fn push_char(text: &mut String, c: char)
    ensures
        final(text)@ == old(text)@.push(c),
{
    text.push(c)
}

/// The character that stands for `c` in a file name.
pub fn substitute_char(c: char) -> (r: char)
    ensures
        r == substitute(c),
{
    if c == '\\' {
        '\u{FF3C}'
    } else if c == '/' {
        '\u{FF0F}'
    } else if c == ':' {
        '\u{FF1A}'
    } else if c == '*' {
        '\u{FF0A}'
    } else if c == '"' {
        '\u{FF02}'
    } else if c == '<' {
        '\u{FF1C}'
    } else if c == '>' {
        '\u{FF1E}'
    } else if c == '|' {
        '\u{FF5C}'
    } else {
        c
    }
}

/// Replaces the characters of `name` that may not stand in a file name.
pub fn sanitize_file_name(name: &str) -> (clean: String)
    ensures
        clean@ == sanitized(name@),
        clean@.len() == name@.len(),
        forall|i: int| 0 <= i < clean@.len() ==> !is_forbidden(#[trigger] clean@[i]),
{
    let len: usize = name.unicode_len();
    let mut clean: String = String::new();
    let mut i: usize = 0;
    while i < len
        invariant
            i <= len,
            len == name@.len(),
            clean@ == sanitized(name@).take(i as int),
        decreases len - i,
    {
        let c: char = name.get_char(i);
        push_char(&mut clean, substitute_char(c));
        assert(clean@ =~= sanitized(name@).take(i + 1));
        i += 1;
    }
    assert(clean@ =~= sanitized(name@));
    proof {
        lemma_sanitized_is_clean(name@);
    }
    clean
}

/// The name of the file that is written for the input named `stem`.
pub fn output_file_name(stem: &str, format: AudioFormat) -> (name: String)
    ensures
        name@ == output_name(stem@, format),
{
    let mut name: String = sanitize_file_name(stem);
    name.append(".");
    name.append(format.extension());
    name
}

} // verus!
