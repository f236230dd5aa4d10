//! Numbers and names out of form fields.
use crate::utils::text;
use vstd::prelude::*;

verus! {

/// Reads a reduction; blank is none.
pub fn parse_reduction(s: &str) -> (r: Option<u8>)
    ensures
        match r {
            Some(n) => text::unsigned(text::trimmed(s@)) == Some(n as nat),
            None => match text::unsigned(text::trimmed(s@)) {
                Some(n) => n > u8::MAX,
                None => true,
            },
        },
{
    let t = text::trim(s);
    match text::parse_unsigned(t.as_str(), 255) {
        Some(n) => Some(n as u8),
        None => None,
    }
}

/// The repeat count that a text states; once where it states none.
pub open spec fn repeat_or_once(s: Seq<char>) -> i32 {
    match text::signed(text::trimmed(s)) {
        Some(n) => if i32::MIN <= n <= i32::MAX {
            n as i32
        } else {
            1i32
        },
        None => 1i32,
    }
}

/// Reads a repeat count; blank, or anything that is no number, is once.
pub fn parse_repeat(s: &str) -> (r: Option<i32>)
    ensures
        r == Some(repeat_or_once(s@)),
{
    let t = text::trim(s);
    match text::parse_i32(t.as_str()) {
        Some(n) => Some(n),
        None => Some(1),
    }
}

/// Reads an optional text; blank is none.
pub fn parse_optional_string(s: &str) -> (r: Option<String>)
    ensures
        match r {
            Some(t) => t@ == text::trimmed(s@) && t@.len() > 0,
            None => text::trimmed(s@).len() == 0,
        },
{
    let t = text::trim(s);
    if t.as_str().is_empty() {
        None
    } else {
        Some(t)
    }
}

} // verus!
