//! Validation of the ledger table name.
//!
//! The table name is interpolated directly into query text (identifiers
//! cannot be bound as query parameters), so it is held to a strict
//! identifier shape at construction time: a letter or underscore followed
//! by letters, digits and underscores.

use vstd::prelude::*;

verus! {

/// Characters allowed to open an identifier: ASCII letters and underscore.
pub open spec fn is_ident_start(c: char) -> bool {
    c == '_' || ('a' <= c && c <= 'z') || ('A' <= c && c <= 'Z')
}

/// Characters allowed anywhere in an identifier: the opening set and digits.
pub open spec fn is_ident_char(c: char) -> bool {
    is_ident_start(c) || ('0' <= c && c <= '9')
}

/// A valid table name is non-empty, opens with a letter or underscore, and
/// holds only letters, digits and underscores.
pub open spec fn valid_table_name(s: Seq<char>) -> bool {
    &&& s.len() > 0
    &&& is_ident_start(s[0])
    &&& forall|i: int| 0 <= i < s.len() ==> is_ident_char(s[i])
}

fn ident_start(c: char) -> (b: bool)
    ensures
        b == is_ident_start(c),
{
    c == '_' || ('a' <= c && c <= 'z') || ('A' <= c && c <= 'Z')
}

fn ident_char(c: char) -> (b: bool)
    ensures
        b == is_ident_char(c),
{
    ident_start(c) || ('0' <= c && c <= '9')
}

/// Decides whether `s` may serve as the ledger table name.
pub fn check_table_name(s: &str) -> (b: bool)
    ensures
        b == valid_table_name(s@),
{
    let len = s.unicode_len();
    if len == 0 {
        return false;
    }
    if !ident_start(s.get_char(0)) {
        return false;
    }
    let mut i: usize = 0;
    while i < len
        invariant
            0 <= i <= len,
            len == s@.len(),
            is_ident_start(s@[0]),
            forall|j: int| 0 <= j < i ==> is_ident_char(s@[j]),
        decreases len - i,
    {
        if !ident_char(s.get_char(i)) {
            return false;
        }
        i = i + 1;
    }
    true
}

} // verus!
