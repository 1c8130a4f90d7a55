//! Arguments of the password command.

use vstd::prelude::*;

verus! {

/// Arguments of password generation.
#[derive(Debug)]
pub struct GenPassOpts {
    /// How many characters the password has.
    pub length: u8,
    /// Whether upper-case letters are used.
    pub uppercase: bool,
    /// Whether lower-case letters are used.
    pub lowercase: bool,
    /// Whether digits are used.
    pub numbers: bool,
    /// Whether punctuation is used.
    pub symbols: bool,
}

} // verus!
