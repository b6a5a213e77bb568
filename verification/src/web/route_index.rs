//! `/`: the login form, or the form with a notice of a failed login.
use vstd::prelude::*;

verus! {

/// The template the index page is served from: the one with the notice when
/// the request carries `?invalid=`.
pub fn index_template_path(invalid: bool) -> (path: &'static str)
    ensures
        invalid ==> path@ == "templates/index-invalid.html"@,
        !invalid ==> path@ == "templates/index.html"@,
{
    if invalid {
        "templates/index-invalid.html"
    } else {
        "templates/index.html"
    }
}

} // verus!
