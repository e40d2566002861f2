//! Text as sequences of characters: equality, occurrence and search.

use vstd::prelude::*;
use vstd::string::*;

verus! {

/// `pattern` stands in `text`, starting at position `at`.
pub open spec fn occurs_at(text: Seq<char>, pattern: Seq<char>, at: int) -> bool {
    &&& 0 <= at
    &&& at + pattern.len() <= text.len()
    &&& text.subrange(at, at + pattern.len()) == pattern
}

/// `pattern` stands somewhere in `text`.
pub open spec fn contains(text: Seq<char>, pattern: Seq<char>) -> bool {
    exists|at: int| occurs_at(text, pattern, at)
}

/// The view of an optional text.
pub open spec fn optional_text(text: Option<String>) -> Option<Seq<char>> {
    match text {
        Some(t) => Some(t@),
        None => None,
    }
}

/// Compares two texts character by character.
pub fn same_text(a: &str, b: &str) -> (same: bool)
    ensures
        same == (a@ == b@),
{
    let left = String::from_str(a);
    let right = String::from_str(b);
    left == right
}

/// A fresh copy of an optional text.
pub fn copy_optional(text: &Option<String>) -> (copy: Option<String>)
    ensures
        optional_text(copy) == optional_text(*text),
{
    match text {
        Some(t) => Some(String::from_str(t.as_str())),
        None => None,
    }
}

/// Tests whether `pattern` stands in `text` at position `at`.
pub fn text_occurs_at(text: &str, pattern: &str, at: usize) -> (found: bool)
    ensures
        found == occurs_at(text@, pattern@, at as int),
{
    let n: usize = text.unicode_len();
    let m: usize = pattern.unicode_len();
    if at > n || m > n - at {
        return false;
    }
    let piece = text.substring_char(at, at + m);
    same_text(piece, pattern)
}

/// Searches `text` for `pattern`, from the left.
pub fn text_contains(text: &str, pattern: &str) -> (found: bool)
    ensures
        found == contains(text@, pattern@),
{
    let n: usize = text.unicode_len();
    let mut at: usize = 0;
    loop
        invariant
            at <= n,
            n == text@.len(),
            forall|j: int| 0 <= j < at ==> !occurs_at(text@, pattern@, j),
        decreases n - at,
    {
        if text_occurs_at(text, pattern, at) {
            return true;
        }
        if at >= n {
            assert forall|j: int| !occurs_at(text@, pattern@, j) by {
                if 0 <= j < at {
                } else if j == at {
                }
            }
            return false;
        }
        at += 1;
    }
}

} // verus!
