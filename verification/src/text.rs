//! Small text utilities shared by the parsing and labelling code: string
//! equality over character views, and the character classes that the
//! slash-command grammar depends on.

use vstd::prelude::*;

verus! {

use vstd::string::StrSliceExecFns;

/// A half-open range of character positions within one line of text.
#[derive(Clone, Copy, PartialEq, Eq, Structural, Debug)]
pub struct LineRange {
    pub start: usize,
    pub end: usize,
}

/// Whether `c` counts as whitespace. Relies on char::is_whitespace: the
/// White_Space property is decided by the character alone.
pub uninterp spec fn whitespace_char(c: char) -> bool;

/// Relies on char::is_whitespace for the Unicode White_Space property.
#[verifier::external_body]
pub fn is_whitespace_char(c: char) -> (r: bool)
    ensures
        r == whitespace_char(c),
{
    c.is_whitespace()
}

/// Whether `c` counts as a letter. Relies on char::is_alphabetic: the
/// Alphabetic property is decided by the character alone.
pub uninterp spec fn alphabetic_char(c: char) -> bool;

/// Relies on char::is_alphabetic for the Unicode Alphabetic property.
#[verifier::external_body]
pub fn is_alphabetic_char(c: char) -> (r: bool)
    ensures
        r == alphabetic_char(c),
{
    c.is_alphabetic()
}

/// String equality, decided character by character.
pub fn str_eq(a: &str, b: &str) -> (r: bool)
    ensures
        r == (a@ == b@),
{
    let an = a.unicode_len();
    let bn = b.unicode_len();
    if an != bn {
        return false;
    }
    let mut i: usize = 0;
    while i < an
        invariant
            i <= an,
            an == a@.len(),
            bn == b@.len(),
            an == bn,
            forall|j: int| 0 <= j < i ==> a@[j] == b@[j],
        decreases an - i,
    {
        if a.get_char(i) != b.get_char(i) {
            return false;
        }
        i += 1;
    }
    proof {
        assert(a@ =~= b@);
    }
    true
}

} // verus!
