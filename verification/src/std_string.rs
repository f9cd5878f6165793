//! Contracts for the methods of `std::string::String` that the crate calls
//! and that come without one. They are taken on trust from the standard
//! library's documentation; nothing here is proved.

use vstd::prelude::*;
use std::collections::TryReserveError;

verus! {

/// `String::push` appends the one character to the end of the string.
pub assume_specification[ String::push ](s: &mut String, ch: char)
    ensures
        final(s)@ == old(s)@.push(ch),
;

/// `String::try_reserve` asks for room for `additional` more bytes and
/// reports whether it got it. The string's contents stay as they were in
/// either case.
pub assume_specification[ String::try_reserve ](s: &mut String, additional: usize) -> (result:
    Result<(), TryReserveError>)
    ensures
        final(s)@ == old(s)@,
;

} // verus!
