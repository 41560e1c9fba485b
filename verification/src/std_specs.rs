//! What this library takes for granted about three functions of the standard
//! library on strings.

use vstd::prelude::*;

verus! {

/// `String::clear` removes all the characters.
pub assume_specification[ std::string::String::clear ](text: &mut std::string::String)
    ensures
        final(text)@ == Seq::<char>::empty(),
;

/// `String::push` appends one character.
pub assume_specification[ std::string::String::push ](text: &mut std::string::String, c: char)
    ensures
        final(text)@ == old(text)@.push(c),
;

/// Two string slices are equal when they hold the same characters in the same
/// order.
pub assume_specification[ <str as PartialEq>::eq ](left: &str, right: &str) -> (equal: bool)
    ensures
        equal == (left@ == right@),
;

} // verus!
