//! Cell text of the resource table.

use crate::text::{byte_len, chars_of, longer_than, prefix_within, take_within};
use vstd::prelude::*;

verus! {

/// The text of a table cell that has room for `max_len` bytes: `s` itself
/// where it fits, and else the longest prefix of `s` of at most
/// `max_len - 3` bytes (of no bytes where `max_len` is under 3), followed by
/// three dots.
pub open spec fn truncated(s: Seq<char>, max_len: nat) -> Seq<char> {
    if byte_len(s) > max_len {
        prefix_within(
            s,
            if max_len >= 3 {
                (max_len - 3) as nat
            } else {
                0
            },
        ) + "..."@
    } else {
        s
    }
}

/// Cuts `s` down to a table cell of `max_len` bytes.
pub fn truncate_string(s: &str, max_len: usize) -> (r: String)
    ensures
        r@ == truncated(s@, max_len as nat),
{
    let text = chars_of(s);
    if longer_than(&text, max_len) {
        let room: usize = if max_len >= 3 {
            max_len - 3
        } else {
            0
        };
        let mut r = take_within(&text, room);
        r.append("...");
        r
    } else {
        s.to_owned()
    }
}

} // verus!
