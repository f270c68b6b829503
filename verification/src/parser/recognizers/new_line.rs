//! Line-ending recognizer: `"\n"` or `"\r\n"`, nothing else. A bare
//! carriage return is not a line ending and falls through to plain text.

use vstd::prelude::*;

use crate::parser::recognizers::chars::{is_caride_retrun, is_line_feed, spec_is_caride_retrun,
    spec_is_line_feed};
use crate::phrase::NewLineType;

verus! {

/// The line ending matched at `pos`, with the number of characters it
/// consumes: `"\n"` is one-character `Lf`, `"\r\n"` is two-character `CrLf`.
pub open spec fn spec_new_line(s: Seq<char>, pos: int) -> Option<(int, NewLineType)> {
    if 0 <= pos < s.len() && spec_is_line_feed(s[pos]) {
        Some((1int, NewLineType::Lf))
    } else if 0 <= pos && pos + 1 < s.len() && spec_is_caride_retrun(s[pos])
        && spec_is_line_feed(s[pos + 1]) {
        Some((2int, NewLineType::CrLf))
    } else {
        None
    }
}

pub fn new_line(text: &str, pos: usize) -> (r: Option<(usize, NewLineType)>)
    requires
        pos <= text@.len(),
    ensures
        match r {
            Some((n, t)) => spec_new_line(text@, pos as int) == Some((n as int, t)) && pos + n
                <= text@.len(),
            None => spec_new_line(text@, pos as int) is None,
        },
{
    let n = text.unicode_len();
    if pos < n && is_line_feed(text.get_char(pos)) {
        Some((1, NewLineType::Lf))
    } else if pos < n && is_caride_retrun(text.get_char(pos)) && pos + 1 < n && is_line_feed(
        text.get_char(pos + 1),
    ) {
        Some((2, NewLineType::CrLf))
    } else {
        None
    }
}

} // verus!
