//! Helpers of the interactive menu.
use vstd::prelude::*;
use vstd::string::{StrSliceExecFns, StringExecFns};
use crate::models::ReturnURL;
use crate::text::chars_of;

verus! {

/// The text without one trailing line break (`\n` or `\r\n`).
pub open spec fn without_newline(s: Seq<char>) -> Seq<char> {
    if s.len() > 0 && s.last() == '\n' {
        let t = s.drop_last();
        if t.len() > 0 && t.last() == '\r' {
            t.drop_last()
        } else {
            t
        }
    } else {
        s
    }
}

/// Removes one trailing line break (`\n` or `\r\n`) from `s`.
pub fn trim_newline(s: &mut String)
    ensures
        final(s)@ == without_newline(old(s)@),
{
    let chars = chars_of(s.as_str());
    let n = chars.len();
    if n > 0 && chars[n - 1] == '\n' {
        let keep = if n > 1 && chars[n - 2] == '\r' { n - 2 } else { n - 1 };
        let trimmed = String::from_str(s.as_str().substring_char(0, keep));
        assert(trimmed@ =~= without_newline(old(s)@));
        *s = trimmed;
    }
}

/// The name of a text in lower case.
pub uninterp spec fn lowercase_of(s: Seq<char>) -> Seq<char>;

/// Relies on `str::to_lowercase`: the result depends on the characters alone.
#[verifier::external_body]
pub(crate) fn lowercase(s: &str) -> (r: String)
    ensures
        r@ == lowercase_of(s@),
{
    s.to_lowercase()
}

/// The playlist to offer to repair after a lookup: the first one found, when
/// it is muted.
pub fn playlist_to_fix(urls: &Vec<ReturnURL>) -> (r: Option<String>)
    ensures
        urls@.len() > 0 && urls@[0].muted ==> r is Some && r->0@ == urls@[0].playlist@,
        !(urls@.len() > 0 && urls@[0].muted) ==> r is None,
{
    if urls.len() > 0 && urls[0].muted {
        Some(String::from_str(urls[0].playlist.as_str()))
    } else {
        None
    }
}

/// Whether an answer to "download the fixed playlist? (Y/n)" says yes: `y`
/// in either case, or nothing.
pub fn accepts_fix(answer: &str) -> (r: bool)
    ensures
        r == (lowercase_of(answer@) == "y"@ || lowercase_of(answer@) == Seq::<char>::empty()),
{
    let lower = lowercase(answer);
    let chars = chars_of(lower.as_str());
    proof {
        reveal_strlit("y");
    }
    if chars.len() == 0 {
        assert(lower@ =~= Seq::<char>::empty());
        true
    } else if chars.len() == 1 && chars[0] == 'y' {
        assert(lower@ =~= "y"@);
        true
    } else {
        assert(lower@ != "y"@);
        assert(lower@.len() != 0);
        false
    }
}

} // verus!
