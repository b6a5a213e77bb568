//! `/api/proxy`: a file of Moodle passed through with its content type.
use vstd::prelude::*;
use crate::errors::{ErrorResponse, ErrorView};
use crate::text::copy_str;

verus! {

/// The address of a file of Moodle, by its path.
pub fn proxy_url(path: &str) -> (url: String)
    ensures
        url@ == "https://ekursy.put.poznan.pl/"@ + path@,
{
    let mut url = copy_str("https://ekursy.put.poznan.pl/");
    url.append(path);
    url
}

/// The content type a passed-through answer is sent with: the one the
/// remote answer had; an answer without one is invalid data.
pub open spec fn content_type_check(content_type: Option<Seq<u8>>) -> Result<Seq<u8>, ErrorView> {
    match content_type {
        Some(v) => Ok(v),
        None => Err(ErrorView::REMOTE_SERVER_SENT_INVALID_DATA("No Content-Type header"@)),
    }
}

/// The content type a passed-through answer is sent with (see
/// [`content_type_check`]).
pub fn pass_content_type(content_type: Option<Vec<u8>>) -> (r: Result<Vec<u8>, ErrorResponse>)
    ensures
        match r {
            Ok(v) => content_type_check(content_type.deep_view()) == Ok::<Seq<u8>, ErrorView>(v.deep_view()),
            Err(e) => content_type_check(content_type.deep_view()) == Err::<Seq<u8>, ErrorView>(e.deep_view()),
        },
{
    match content_type {
        Some(v) => Ok(v),
        None => Err(ErrorResponse::REMOTE_SERVER_SENT_INVALID_DATA(copy_str("No Content-Type header"))),
    }
}

} // verus!
