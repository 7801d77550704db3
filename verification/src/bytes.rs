//! Bytes as text, text in lower case, and text as it is quoted in messages: what the standard
//! library has for it.

use vstd::prelude::*;

verus! {

/// What `String::from_utf8_lossy` makes of bytes.
pub uninterp spec fn lossy(bytes: Seq<u8>) -> Seq<char>;

/// `String::from_utf8_lossy`: bytes that are UTF-8 are read as that; in any others, what cannot be
/// read is replaced.
#[verifier::external_body]
pub(crate) fn lossy_text(bytes: &Vec<u8>) -> (r: String)
    ensures
        r@ == lossy(bytes@),
        vstd::utf8::valid_utf8(bytes@) ==> r@ == vstd::utf8::decode_utf8(bytes@),
{
    String::from_utf8_lossy(bytes).into_owned()
}

/// `String::from_utf8`: the text that the bytes are the UTF-8 of, where they are that of one.
#[verifier::external_body]
pub(crate) fn utf8_text(bytes: Vec<u8>) -> (r: Option<String>)
    ensures
        match r {
            Some(s) => vstd::utf8::valid_utf8(bytes@) && s@ == vstd::utf8::decode_utf8(bytes@),
            None => !vstd::utf8::valid_utf8(bytes@),
        },
{
    String::from_utf8(bytes).ok()
}

/// A text as the standard library writes it for debugging: in quotes, with escapes.
pub uninterp spec fn quoted(s: Seq<char>) -> Seq<char>;

/// The `Debug` form of a `str`. A line break in it is written as an escape, so that there is none
/// in the result.
#[verifier::external_body]
pub(crate) fn quoted_text(s: &str) -> (r: String)
    ensures
        r@ == quoted(s@),
        !r@.contains('\n'),
{
    format!("{s:?}")
}

/// What `str::to_lowercase` makes of a text.
pub uninterp spec fn lowercase(s: Seq<char>) -> Seq<char>;

/// An ASCII letter in lower case; any other character as it is.
pub open spec fn ascii_lower(c: char) -> char {
    if 'A' <= c <= 'Z' {
        (c as u32 + 32) as char
    } else {
        c
    }
}

/// `str::to_lowercase`. A text of ASCII characters alone is lowered letter by letter.
#[verifier::external_body]
pub(crate) fn lower_text(s: &str) -> (r: String)
    ensures
        r@ == lowercase(s@),
        (forall|i: int| 0 <= i < s@.len() ==> #[trigger] s@[i] < '\u{80}') ==> r@ == s@.map_values(
            |c: char| ascii_lower(c),
        ),
{
    s.to_lowercase()
}

/// A text in lower case: of a text of ASCII characters alone the letters one by one, and of any other
/// what `str::to_lowercase` makes of it.
pub open spec fn lowered(s: Seq<char>) -> Seq<char> {
    let ascii = forall|i: int| 0 <= i < s.len() ==> '\u{7f}' >= #[trigger] s[i];
    if ascii {
        s.map_values(|c: char| ascii_lower(c))
    } else {
        lowercase(s)
    }
}

/// The text in lower case.
pub fn lowered_text(s: &str) -> (r: String)
    ensures
        r@ == lowered(s@),
{
    proof {
        if forall|i: int| 0 <= i < s@.len() ==> '\u{7f}' >= #[trigger] s@[i] {
            assert forall|i: int| 0 <= i < s@.len() implies '\u{80}' > #[trigger] s@[i] by {}
        }
    }
    lower_text(s)
}

/// A text of ASCII characters keeps its length in lower case, and each character but an upper-case
/// letter; such a letter becomes the small letter of the alphabet.
pub proof fn lower_case_is_letter_by_letter(s: Seq<char>, i: int)
    requires
        forall|j: int| 0 <= j < s.len() ==> 127 >= #[trigger] (s[j] as int),
        0 <= i < s.len(),
    ensures
        lowered(s).len() == s.len(),
        65 <= s[i] as int <= 90 ==> lowered(s)[i] as int == s[i] as int + 32,
        !(65 <= s[i] as int <= 90) ==> lowered(s)[i] == s[i],
{
    assert forall|j: int| 0 <= j < s.len() implies '\u{7f}' >= #[trigger] s[j] by {
        assert(127 >= s[j] as int);
    }
}

} // verus!
