//! The one rule for a SQL function name this crate renders unquoted.
use vstd::prelude::*;
use crate::text::chars_of;

verus! {

/// An ASCII letter.
pub open spec fn is_ascii_letter(c: char) -> bool {
    ('a' <= c && c <= 'z') || ('A' <= c && c <= 'Z')
}

/// An ASCII letter, digit or underscore.
pub open spec fn is_ident_char(c: char) -> bool {
    is_ascii_letter(c) || ('0' <= c && c <= '9') || c == '_'
}

/// `[A-Za-z_][A-Za-z0-9_]*`: ASCII letters, digits and underscores only, never
/// a leading digit, never empty.
pub open spec fn valid_function_name(s: Seq<char>) -> bool {
    &&& s.len() > 0
    &&& (is_ascii_letter(s[0]) || s[0] == '_')
    &&& forall|i: int| 0 <= i < s.len() ==> is_ident_char(#[trigger] s[i])
}

/// Whether `name` may be rendered unquoted as a SQL function name.
///
/// A function name is SQL syntax, not data: it sits outside quotes, so there
/// is no escape that would make an arbitrary string safe there. It is
/// therefore validated rather than escaped.
pub fn is_valid_function_name(name: &str) -> (r: bool)
    ensures
        r == valid_function_name(name@),
{
    let s = chars_of(name);
    if s.len() == 0 {
        return false;
    }
    let first = s[0];
    if !(('a' <= first && first <= 'z') || ('A' <= first && first <= 'Z') || first == '_') {
        assert(!(is_ascii_letter(s@[0]) || s@[0] == '_'));
        return false;
    }
    let mut i: usize = 0;
    while i < s.len()
        invariant
            i <= s.len(),
            s@ == name@,
            s@.len() > 0,
            is_ascii_letter(s@[0]) || s@[0] == '_',
            forall|j: int| 0 <= j < i ==> is_ident_char(#[trigger] s@[j]),
        decreases s.len() - i,
    {
        let c = s[i];
        if !(('a' <= c && c <= 'z') || ('A' <= c && c <= 'Z') || ('0' <= c && c <= '9') || c == '_') {
            assert(!is_ident_char(s@[i as int]));
            return false;
        }
        i = i + 1;
    }
    true
}

} // verus!
