//! The names of the files that decoded samples are written to.

use vstd::prelude::*;

use crate::text::{alphanumeric, ascii_alphanumeric};

verus! {

/// A character as it stands in a file name: letters, digits, `-`, `_` and `.` stay,
/// anything else becomes `_`.
pub open spec fn sanitized_char(c: char) -> char {
    if alphanumeric(c) || c == '-' || c == '_' || c == '.' {
        c
    } else {
        '_'
    }
}

/// A name with each character as it stands in a file name.
pub open spec fn sanitized(name: Seq<char>) -> Seq<char> {
    Seq::new(name.len(), |i: int| sanitized_char(name[i]))
}

/// Makes a name fit for a file.
pub fn sanitize_filename(name: &str) -> (r: String)
    ensures
        r@ == sanitized(name@),
{
    let mut out = String::new();
    for c in it: name.chars()
        invariant
            it.seq() == name@,
            out@ == sanitized(name@).take(it.index() as int),
    {
        if c.is_alphanumeric() || c == '-' || c == '_' || c == '.' {
            out.push(c);
        } else {
            out.push('_');
        }
        assert(out@ =~= sanitized(name@).take(it.index() + 1));
    }
    assert(out@ =~= sanitized(name@));
    out
}

/// The name of the WAV file of a sample.
pub open spec fn wav_name(name: Seq<char>) -> Seq<char> {
    sanitized(name) + ".wav"@
}

/// The name of the WAV file of a sample.
pub fn wav_file_name(name: &str) -> (r: String)
    ensures
        r@ == wav_name(name@),
{
    let mut out = sanitize_filename(name);
    out.push_str(".wav");
    out
}

/// A character of a sample name as it stands in an output name: letters, digits, `_` and
/// `-` stay, anything else becomes `_`.
pub open spec fn safe_char(c: char) -> char {
    if alphanumeric(c) || c == '_' || c == '-' {
        c
    } else {
        '_'
    }
}

/// A sample name with each character as it stands in an output name.
pub open spec fn safe(name: Seq<char>) -> Seq<char> {
    Seq::new(name.len(), |i: int| safe_char(name[i]))
}

/// Makes a sample name fit for an output name.
pub fn safe_name(name: &str) -> (r: String)
    ensures
        r@ == safe(name@),
{
    let mut out = String::new();
    for c in it: name.chars()
        invariant
            it.seq() == name@,
            out@ == safe(name@).take(it.index() as int),
    {
        if c.is_alphanumeric() || c == '_' || c == '-' {
            out.push(c);
        } else {
            out.push('_');
        }
        assert(out@ =~= safe(name@).take(it.index() + 1));
    }
    assert(out@ =~= safe(name@));
    out
}

/// Sanitising twice is the same as doing it once, and an output name is left as it is.
pub proof fn law_sanitize_settles(name: Seq<char>)
    ensures
        sanitized(sanitized(name)) == sanitized(name),
        sanitized(safe(name)) == safe(name),
        safe(sanitized(name)) == safe(name),
        safe(safe(name)) == safe(name),
{
}

/// Of ASCII, only letters, digits, `-`, `_` and `.` stand in the text: no separator of
/// directories and no control character.
pub open spec fn fit_for_file(text: Seq<char>) -> bool {
    forall|i: int|
        #![trigger text[i]]
        0 <= i < text.len() && (text[i] as u32) < 0x80 ==> ascii_alphanumeric(text[i]) || text[i]
            == '-' || text[i] == '_' || text[i] == '.'
}

/// Of ASCII, only letters, digits, `-` and `_` stand in the text.
pub open spec fn fit_without_dots(text: Seq<char>) -> bool {
    fit_for_file(text) && forall|i: int| 0 <= i < text.len() ==> #[trigger] text[i] != '.'
}

/// What is made fit for a file is fit for it: of ASCII it holds only letters, digits,
/// `-`, `_` and `.`, and an output name no `.` either.
pub proof fn law_sanitized_is_fit(name: Seq<char>)
    ensures
        fit_for_file(sanitized(name)),
        fit_for_file(wav_name(name)),
        fit_without_dots(safe(name)),
{
    reveal_strlit(".wav");
}

/// A name is never made longer or shorter, and what is fit for a file stays.
pub proof fn law_sanitize_keeps(name: Seq<char>, i: int)
    requires
        0 <= i < name.len(),
    ensures
        sanitized(name).len() == name.len(),
        safe(name).len() == name.len(),
        alphanumeric(name[i]) || name[i] == '-' || name[i] == '_' ==> safe(name)[i] == name[i]
            && sanitized(name)[i] == name[i],
        name[i] == '.' ==> sanitized(name)[i] == name[i],
{
}

} // verus!
