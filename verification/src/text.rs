//! Small helpers over `str` that the engine's rules need: exact slice
//! equality, whitespace trimming and case folding for name matching.
use vstd::prelude::*;

verus! {

/// The characters of `s` with leading and trailing whitespace removed,
/// as `str::trim` computes them; the result depends on `s` alone.
pub uninterp spec fn trim_of(s: Seq<char>) -> Seq<char>;

/// The lowercase folding of `s`, as `str::to_lowercase` computes it;
/// the result depends on `s` alone.
pub uninterp spec fn lower_of(s: Seq<char>) -> Seq<char>;

/// Relies on str's `PartialEq`: two slices are equal exactly when
/// their character sequences are.
#[verifier::external_body]
pub fn str_eq(a: &str, b: &str) -> (r: bool)
    ensures
        r == (a@ == b@),
{
    a == b
}

/// Relies on str::trim: the trimmed text is a function of the characters alone.
#[verifier::external_body]
pub fn trim_str(s: &str) -> (r: String)
    ensures
        r@ == trim_of(s@),
{
    s.trim().to_owned()
}

/// Relies on str::to_lowercase: the folded text is a function of the
/// characters alone.
#[verifier::external_body]
pub fn lowercase(s: &str) -> (r: String)
    ensures
        r@ == lower_of(s@),
{
    s.to_lowercase()
}

} // verus!
