//! One module per API endpoint, and the checks they share on where a fetch
//! of a Moodle page ended: Moodle answers an expired session by sending the
//! browser elsewhere.
pub mod course;
pub mod course_grades;
pub mod course_list;
pub mod forum;
pub mod login;
pub mod me;
pub mod proxy;
pub mod resource;

use vstd::prelude::*;
use crate::errors::{ErrorResponse, ErrorView};
use crate::text::{copy_str, has_prefix, starts_with};

verus! {

/// The address of Moodle's login form.
pub open spec fn login_page() -> Seq<char> {
    "https://ekursy.put.poznan.pl/login/index.php"@
}

/// A fetch that ended on the login form is a session that has expired.
pub open spec fn login_check(final_url: Seq<char>) -> Result<(), ErrorView> {
    if has_prefix(final_url, login_page()) {
        Err(ErrorView::AUTH_FAILED("Session expired"@))
    } else {
        Ok(())
    }
}

/// Checks that a fetch did not end on the login form (see [`login_check`]).
pub fn check_session(final_url: &str) -> (r: Result<(), ErrorResponse>)
    ensures
        match r {
            Ok(_) => login_check(final_url@) == Ok::<(), ErrorView>(()),
            Err(e) => login_check(final_url@) == Err::<(), ErrorView>(e.deep_view()),
        },
{
    if starts_with(final_url, "https://ekursy.put.poznan.pl/login/index.php") {
        Err(ErrorResponse::AUTH_FAILED(copy_str("Session expired")))
    } else {
        Ok(())
    }
}

/// A fetch that did not end on the address it asked for is a session that
/// has expired.
pub open spec fn redirect_check(final_url: Seq<char>, requested: Seq<char>) -> Result<(), ErrorView> {
    if has_prefix(final_url, requested) {
        Ok(())
    } else {
        Err(ErrorView::AUTH_FAILED("Session expired"@))
    }
}

/// Checks that a fetch ended on the address it asked for (see
/// [`redirect_check`]).
pub fn check_not_redirected(final_url: &str, requested: &str) -> (r: Result<(), ErrorResponse>)
    ensures
        match r {
            Ok(_) => redirect_check(final_url@, requested@) == Ok::<(), ErrorView>(()),
            Err(e) => redirect_check(final_url@, requested@) == Err::<(), ErrorView>(e.deep_view()),
        },
{
    if starts_with(final_url, requested) {
        Ok(())
    } else {
        Err(ErrorResponse::AUTH_FAILED(copy_str("Session expired")))
    }
}

} // verus!
