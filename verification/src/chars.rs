//! Character classification for the scanner.
//!
//! The scanner follows Unicode classes (whitespace, alphabetic,
//! alphanumeric, numeric), as `char`'s own methods define them. Those
//! classes are far too large to restate, so each gets an uninterpreted
//! spec-level name, and a thin trusted wrapper ties the executable method
//! to its name. Everything downstream (the scan specification and the
//! scanner itself) is stated and verified relative to these names.

use vstd::prelude::*;

verus! {

pub uninterp spec fn is_whitespace_char(c: char) -> bool;

pub uninterp spec fn is_alphabetic_char(c: char) -> bool;

pub uninterp spec fn is_alphanumeric_char(c: char) -> bool;

pub uninterp spec fn is_numeric_char(c: char) -> bool;

/// Relies on char::is_whitespace: membership in the Unicode `White_Space`
/// class, a fixed function of the character alone.
#[verifier::external_body]
pub(crate) fn char_is_whitespace(c: char) -> (r: bool)
    ensures
        r == is_whitespace_char(c),
{
    c.is_whitespace()
}

/// Relies on char::is_alphabetic: membership in the Unicode `Alphabetic`
/// class, a fixed function of the character alone.
#[verifier::external_body]
pub(crate) fn char_is_alphabetic(c: char) -> (r: bool)
    ensures
        r == is_alphabetic_char(c),
{
    c.is_alphabetic()
}

/// Relies on char::is_alphanumeric, documented as exactly
/// `is_alphabetic() || is_numeric()`: a fixed function of the character
/// alone, true of every alphabetic and every numeric character.
#[verifier::external_body]
pub(crate) fn char_is_alphanumeric(c: char) -> (r: bool)
    ensures
        r == is_alphanumeric_char(c),
        is_alphabetic_char(c) ==> r,
        is_numeric_char(c) ==> r,
{
    c.is_alphanumeric()
}

/// Relies on char::is_numeric: membership in the Unicode numeric classes
/// (`Nd`, `Nl`, `No`), a fixed function of the character alone.
#[verifier::external_body]
pub(crate) fn char_is_numeric(c: char) -> (r: bool)
    ensures
        r == is_numeric_char(c),
{
    c.is_numeric()
}

} // verus!
