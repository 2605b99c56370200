//! What is assumed of the standard library's conversions into `String`.

use vstd::prelude::*;

verus! {

/// `From<&str>` for `String` copies the characters of the string slice.
pub assume_specification<'a, 'b>[ <String as From<&'a str>>::from ](s: &'b str) -> (string: String)
    ensures
        string@ == s@,
;

/// `From<T>` for `T` returns its argument unchanged.
pub assume_specification<A>[ <A as std::convert::From<A>>::from ](value: A) -> (same: A)
    ensures
        same == value,
;

} // verus!
