//! Preview candidate logos on Wikimedia wikis: validate the request
//! parameters, build the logo CSS fragment from media-repository image
//! data, rewrite root-relative links in a fetched page, and splice the
//! CSS in before the closing head tag.

use vstd::prelude::*;

pub mod text;
pub mod validate;
pub mod css;
pub mod page;
pub mod requests;

verus! {

/// Liveness probe body: the health endpoint answers with this literal.
pub fn healthz() -> (r: &'static str)
    ensures
        r@ == "OK"@,
{
    "OK"
}

} // verus!
