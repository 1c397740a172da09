//! Conversions of the standard library that callers of this one rely on.
use vstd::prelude::*;

verus! {

/// `From` of a type for itself returns its argument unchanged.
pub assume_specification<Val>[ <Val as std::convert::From<Val>>::from ](val: Val) -> (same: Val)
    ensures
        same == val,
;

/// `From` of a type for an optional value of that type wraps its argument in
/// `Some`.
pub assume_specification<Val>[ <Option<Val> as std::convert::From<Val>>::from ](val: Val) -> (some:
    Option<Val>)
    ensures
        some == Some(val),
;

/// `From` of a string slice for a string copies its characters.
pub assume_specification<'a>[ <String as std::convert::From<&'a str>>::from ](val: &str) -> (text:
    String)
    ensures
        text@ == val@,
;

} // verus!
