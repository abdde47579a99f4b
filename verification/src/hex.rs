//! Colours written as text: six hexadecimal digits, with or without a `#`
//! in front.

use vstd::prelude::*;
use vstd::string::StrSliceExecFns;

verus! {

/// The number that `u32::from_str_radix` reads from `text` in base 16, or
/// `None` where it reports an error.
pub uninterp spec fn hex_value(text: Seq<char>) -> Option<u32>;

/// Calls `u32::from_str_radix` with the radix 16. Trusted: what it returns
/// depends on the characters alone.
#[verifier::external_body]
fn read_hex(text: &str) -> (value: Option<u32>)
    ensures
        value == hex_value(text@),
{
    u32::from_str_radix(text, 16).ok()
}

/// `text` without its first character where that is a `#`.
pub open spec fn without_hash(text: Seq<char>) -> Seq<char> {
    if text.len() > 0 && text[0] == '#' {
        text.subrange(1, text.len() as int)
    } else {
        text
    }
}

/// Reads a colour such as `#ff8000` or `ff8000` as the number `0xff8000`.
pub fn parse_hex_color(s: &str) -> (color: Option<u32>)
    ensures
        color == hex_value(without_hash(s@)),
{
    let len = s.unicode_len();
    if len > 0 && s.get_char(0) == '#' {
        read_hex(s.substring_char(1, len))
    } else {
        read_hex(s)
    }
}

} // verus!
