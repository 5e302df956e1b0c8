use vstd::prelude::*;

verus! {

/// The characters that `str::trim` keeps of a string.
pub uninterp spec fn trimmed(s: Seq<char>) -> Seq<char>;

/// The characters that `{:?}` prints for a string: quoted and escaped.
pub uninterp spec fn debug_quoted(s: Seq<char>) -> Seq<char>;

/// Relies on `str::trim`: the slice without leading and trailing whitespace.
#[verifier::external_body]
pub(crate) fn trim(s: &str) -> (r: &str)
    ensures
        r@ == trimmed(s@),
{
    s.trim()
}

/// Relies on `<str as Debug>::fmt`, through `format!("{:?}", ..)`.
#[verifier::external_body]
pub(crate) fn debug_string(s: &str) -> (r: String)
    ensures
        r@ == debug_quoted(s@),
{
    format!("{:?}", s)
}

/// Relies on `String::push_str`: appends `t` to the end of `s`.
#[verifier::external_body]
pub(crate) fn append(s: &mut String, t: &str)
    ensures
        final(s)@ == old(s)@ + t@,
{
    s.push_str(t)
}

} // verus!
