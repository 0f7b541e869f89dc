//! Contracts for three operations of other libraries that the verifier knows
//! nothing about: two of the standard library, one of the crate rand. None
//! is proved here: all are believed.

use std::rc::Rc;
use vstd::prelude::*;

verus! {

/// `Rc::clone` of std: a second pointer to the allocation that `rc` points to.
/// The contract claims that what the new pointer holds is what `rc` holds.
#[verifier::external_body]
pub(crate) fn share<T>(rc: &Rc<T>) -> (res: Rc<T>)
    ensures
        res == *rc,
{
    Rc::clone(rc)
}

/// `String::push` of std: appends one character to the end of the string.
pub assume_specification[ std::string::String::push ](string: &mut std::string::String, ch: char)
    ensures
        final(string)@ == old(string)@.push(ch),
;

/// `rand::random::<i64>()` of the crate rand: a number drawn by the
/// generator of the calling thread. Nothing is claimed of the number. The
/// call takes no input. It panics only where the operating system gives the
/// generator no entropy to start or to reseed with, which is a failure of
/// the machine and not of the program.
#[verifier::external_body]
pub(crate) fn random_number() -> (res: i64) {
    rand::random::<i64>()
}

} // verus!
