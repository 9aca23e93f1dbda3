//! Character classification.
//!
//! The scanner classifies characters with the standard Unicode predicates of
//! `char`. Within ASCII each class is written out here, so proofs about
//! ASCII input go through definitionally; beyond ASCII each predicate is a
//! name for what the corresponding `char` method reports.

use vstd::prelude::*;

verus! {

/// Whether a character beyond ASCII carries Unicode's `White_Space`
/// property; what `char::is_whitespace` reports for it.
pub uninterp spec fn unicode_whitespace(c: char) -> bool;

/// Whether a character beyond ASCII is alphabetic; what
/// `char::is_alphabetic` reports for it.
pub uninterp spec fn unicode_alphabetic(c: char) -> bool;

/// Whether a character beyond ASCII is numeric; what `char::is_numeric`
/// reports for it.
pub uninterp spec fn unicode_numeric(c: char) -> bool;

/// What `char::is_whitespace` returns. Within ASCII, exactly the space and
/// the five control characters U+0009..U+000D carry `White_Space`.
pub open spec fn is_whitespace_char(c: char) -> bool {
    if (c as u32) < 0x80 {
        c == ' ' || (9 <= (c as u32) && (c as u32) <= 13)
    } else {
        unicode_whitespace(c)
    }
}

/// What `char::is_alphabetic` returns. Within ASCII, exactly the letters.
/// An alphabetic character is never whitespace, so beyond ASCII the
/// whitespace characters are excluded outright.
pub open spec fn is_alphabetic_char(c: char) -> bool {
    if (c as u32) < 0x80 {
        (('a' as u32) <= (c as u32) && (c as u32) <= ('z' as u32)) || (('A' as u32) <= (c as u32)
            && (c as u32) <= ('Z' as u32))
    } else {
        !is_whitespace_char(c) && unicode_alphabetic(c)
    }
}

/// What `char::is_numeric` returns. Within ASCII, exactly the decimal
/// digits. A numeric character is never whitespace, so beyond ASCII the
/// whitespace characters are excluded outright.
pub open spec fn is_numeric_char(c: char) -> bool {
    if (c as u32) < 0x80 {
        ('0' as u32) <= (c as u32) && (c as u32) <= ('9' as u32)
    } else {
        !is_whitespace_char(c) && unicode_numeric(c)
    }
}

/// What `char::is_alphanumeric` returns: alphabetic or numeric, which is
/// how the standard library defines it.
pub open spec fn is_alphanumeric_char(c: char) -> bool {
    is_alphabetic_char(c) || is_numeric_char(c)
}

/// An ASCII decimal digit, `'0'` through `'9'`.
pub open spec fn is_ascii_digit_char(c: char) -> bool {
    ('0' as u32) <= (c as u32) && (c as u32) <= ('9' as u32)
}

/// Relies on `char::is_whitespace`: true exactly on the characters with
/// Unicode's `White_Space` property, whose ASCII members are the space and
/// U+0009..U+000D.
pub assume_specification[ char::is_whitespace ](c: char) -> (r: bool)
    ensures
        r == is_whitespace_char(c),
        (c as u32) >= 0x80 ==> r == unicode_whitespace(c),
;

/// Relies on `char::is_alphabetic`: true exactly on the Unicode alphabetic
/// characters, whose ASCII members are the letters and which are disjoint
/// from the whitespace characters.
pub assume_specification[ char::is_alphabetic ](c: char) -> (r: bool)
    ensures
        r == is_alphabetic_char(c),
        (c as u32) >= 0x80 ==> r == (!is_whitespace_char(c) && unicode_alphabetic(c)),
;

/// Relies on `char::is_numeric`: true exactly on the Unicode numeric
/// characters, whose ASCII members are the decimal digits and which are
/// disjoint from the whitespace characters.
pub assume_specification[ char::is_numeric ](c: char) -> (r: bool)
    ensures
        r == is_numeric_char(c),
        (c as u32) >= 0x80 ==> r == (!is_whitespace_char(c) && unicode_numeric(c)),
;

/// Relies on `char::is_alphanumeric`, defined by the standard library as
/// `is_alphabetic` or `is_numeric`.
pub assume_specification[ char::is_alphanumeric ](c: char) -> (r: bool)
    ensures
        r == is_alphanumeric_char(c),
;

} // verus!
