//! Validation of the homeserver address, delegated to the `url` crate.

use vstd::prelude::*;

verus! {

/// Whether `url::Url::parse` accepts the text as an absolute URL. The full
/// grammar would take pages to state, so the outcome only carries this name.
pub uninterp spec fn is_absolute_url(s: Seq<char>) -> bool;

/// Relies on `url::Url::parse`: whether the text parses as an absolute URL
/// is a function of the text alone.
#[verifier::external_body]
pub(crate) fn check_absolute_url(s: &str) -> (r: bool)
    ensures
        r == is_absolute_url(s@),
{
    url::Url::parse(s).is_ok()
}

} // verus!
