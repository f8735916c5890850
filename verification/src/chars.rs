//! Names for the Unicode character classes the parsers test.
//!
//! Which codepoints count as alphabetic, alphanumeric or whitespace is
//! decided by the standard library's Unicode tables; each class is given a
//! name here so that contracts can speak of it.

use vstd::prelude::*;

verus! {

/// Whether `char::is_alphabetic` holds of `c`; the result depends on the
/// character alone.
pub uninterp spec fn char_alphabetic(c: char) -> bool;

/// Whether `char::is_alphanumeric` holds of `c`; the result depends on the
/// character alone.
pub uninterp spec fn char_alphanumeric(c: char) -> bool;

/// Whether `char::is_whitespace` holds of `c`; the result depends on the
/// character alone.
pub uninterp spec fn char_whitespace(c: char) -> bool;

/// Relies on `char::is_alphabetic` from the standard library.
pub assume_specification[ char::is_alphabetic ](c: char) -> (b: bool)
    ensures
        b == char_alphabetic(c),
;

/// Relies on `char::is_alphanumeric` from the standard library.
pub assume_specification[ char::is_alphanumeric ](c: char) -> (b: bool)
    ensures
        b == char_alphanumeric(c),
;

/// Relies on `char::is_whitespace` from the standard library.
pub assume_specification[ char::is_whitespace ](c: char) -> (b: bool)
    ensures
        b == char_whitespace(c),
;

} // verus!
