//! Small text helpers over `&str` and `String`, stated over `Seq<char>` views.

use vstd::prelude::*;
use vstd::string::StrSliceExecFns;

verus! {

/// Whether two string slices hold the same characters.
pub fn same_text(a: &str, b: &str) -> (equal: bool)
    ensures
        equal == (a@ == b@),
{
    let left: String = a.to_owned();
    let right: String = b.to_owned();
    left == right
}

} // verus!

verus! {

/// The characters with Unicode's `White_Space` property, which is what
/// `char::is_whitespace` and `str::trim` go by.
pub open spec fn is_white_space(c: char) -> bool {
    ||| '\u{9}' <= c <= '\u{d}'
    ||| c == ' '
    ||| c == '\u{85}'
    ||| c == '\u{a0}'
    ||| c == '\u{1680}'
    ||| '\u{2000}' <= c <= '\u{200a}'
    ||| c == '\u{2028}'
    ||| c == '\u{2029}'
    ||| c == '\u{202f}'
    ||| c == '\u{205f}'
    ||| c == '\u{3000}'
}

/// A text without its leading white space.
pub open spec fn trim_start_text(s: Seq<char>) -> Seq<char>
    decreases s.len(),
{
    if s.len() > 0 && is_white_space(s[0]) {
        trim_start_text(s.drop_first())
    } else {
        s
    }
}

/// A text without its trailing white space.
pub open spec fn trim_end_text(s: Seq<char>) -> Seq<char>
    decreases s.len(),
{
    if s.len() > 0 && is_white_space(s.last()) {
        trim_end_text(s.drop_last())
    } else {
        s
    }
}

/// A text without leading and trailing white space.
pub open spec fn trimmed_text(s: Seq<char>) -> Seq<char> {
    trim_end_text(trim_start_text(s))
}

/// `str::trim`: the slice without leading and trailing white space.
#[verifier::external_body]
pub(crate) fn trim_text(s: &str) -> (trimmed: &str)
    ensures
        trimmed@ == trimmed_text(s@),
{
    s.trim()
}

/// Whether a text starts with a prefix.
pub open spec fn has_prefix(s: Seq<char>, prefix: Seq<char>) -> bool {
    prefix.len() <= s.len() && s.subrange(0, prefix.len() as int) == prefix
}

/// Whether a character is one of the ASCII digits `0` to `9`.
pub open spec fn is_ascii_digit_char(c: char) -> bool {
    '0' <= c <= '9'
}

/// Whether every character of a text is an ASCII digit.
pub open spec fn all_ascii_digits(s: Seq<char>) -> bool {
    forall|i: int| 0 <= i < s.len() ==> is_ascii_digit_char(#[trigger] s[i])
}

/// Whether `s` starts with `prefix`.
pub fn starts_with_text(s: &str, prefix: &str) -> (starts: bool)
    ensures
        starts == has_prefix(s@, prefix@),
{
    let n = s.unicode_len();
    let m = prefix.unicode_len();
    if m > n {
        return false;
    }
    same_text(s.substring_char(0, m), prefix)
}

/// Whether every character of `s` is an ASCII digit.
pub fn is_all_ascii_digits(s: &str) -> (all: bool)
    ensures
        all == all_ascii_digits(s@),
{
    let n = s.unicode_len();
    let mut i: usize = 0;
    while i < n
        invariant
            n == s@.len(),
            i <= n,
            forall|j: int| 0 <= j < i ==> is_ascii_digit_char(#[trigger] s@[j]),
        decreases n - i,
    {
        let c = s.get_char(i);
        if !('0' <= c && c <= '9') {
            return false;
        }
        i = i + 1;
    }
    true
}

} // verus!
