use vstd::prelude::*;

verus! {

/// What `str::to_lowercase` makes of a sequence of characters.
pub uninterp spec fn lower_of(s: Seq<char>) -> Seq<char>;

/// What `str::trim` leaves of a sequence of characters.
pub uninterp spec fn trim_of(s: Seq<char>) -> Seq<char>;

/// The lines that `str::lines` splits a text into.
pub uninterp spec fn lines_of(s: Seq<char>) -> Seq<Seq<char>>;

/// `n` occurs in `h` as a contiguous run of characters.
pub open spec fn has_sub(h: Seq<char>, n: Seq<char>) -> bool {
    exists|i: int| 0 <= i && i + n.len() <= h.len() && #[trigger] h.subrange(i, i + n.len()) == n
}

/// Relies on `str::to_lowercase`: the result depends on the characters alone.
#[verifier::external_body]
pub(crate) fn lowercase(s: &str) -> (r: String)
    ensures
        r@ == lower_of(s@),
{
    s.to_lowercase()
}

/// Relies on `str::trim`: the result depends on the characters alone.
#[verifier::external_body]
pub(crate) fn trim(s: &str) -> (r: &str)
    ensures
        r@ == trim_of(s@),
{
    s.trim()
}

/// Relies on `str::lines`: the lines depend on the characters alone.
#[verifier::external_body]
pub(crate) fn split_lines(s: &str) -> (r: Vec<&str>)
    ensures
        r@.map_values(|l: &str| l@) == lines_of(s@),
{
    s.lines().collect()
}

/// Relies on `str::contains` with a `&str` pattern: true when the pattern
/// matches a sub-slice of the text.
#[verifier::external_body]
pub(crate) fn contains_text(h: &str, n: &str) -> (r: bool)
    ensures
        r == has_sub(h@, n@),
{
    h.contains(n)
}

} // verus!
