//! Reformatting of the package tool's build timestamps into the primary
//! package manager's display style, named at the specification level.

use vstd::prelude::*;

verus! {

/// The display form of a build timestamp: a value in the source pattern
/// `%Y-%m-%d %H:%M:%S %z` rendered as `%a %d %b %Y %I:%M:%S %p %Z`, and any
/// other value kept verbatim.
pub uninterp spec fn display_date_of(s: Seq<char>) -> Seq<char>;

/// Relies on chrono's `DateTime::parse_from_str` and `DateTime::format`:
/// parsing a fixed pattern and rendering another, both of which depend on
/// the input characters alone; a value the source pattern does not match is
/// returned verbatim.
#[verifier::external_body]
pub(crate) fn reformat_build_date(s: &str) -> (r: String)
    ensures
        r@ == display_date_of(s@),
{
    match chrono::DateTime::parse_from_str(s, "%Y-%m-%d %H:%M:%S %z") {
        Ok(t) => t.format("%a %d %b %Y %I:%M:%S %p %Z").to_string(),
        Err(_) => s.to_string(),
    }
}

} // verus!
