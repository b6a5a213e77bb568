//! `/api/course`: a course page, read by the parser the request names.
use vstd::prelude::*;
use crate::errors::{ErrorResponse, ErrorView};
use crate::parsers::mercury::course_url;
use crate::parsers::{find_parser, parser_named, ParserKind};
use crate::text::copy_str;
use crate::web::routes::{check_not_redirected, redirect_check};

verus! {

/// The parser a request asks for: the one it names, `mercury` when it names
/// none. A name that no parser has is a bad request.
pub open spec fn chosen_parser(name: Option<Seq<char>>) -> Result<ParserKind, ErrorView> {
    match name {
        None => Ok(ParserKind::Mercury),
        Some(n) => match parser_named(n) {
            Some(k) => Ok(k),
            None => Err(ErrorView::BAD_REQUEST("Parser with name \""@ + n + "\" doesn't exist"@)),
        },
    }
}

/// The parser a request asks for (see [`chosen_parser`]).
pub fn choose_parser(name: Option<String>) -> (r: Result<ParserKind, ErrorResponse>)
    ensures
        match r {
            Ok(k) => chosen_parser(name.deep_view()) == Ok::<ParserKind, ErrorView>(k),
            Err(e) => chosen_parser(name.deep_view()) == Err::<ParserKind, ErrorView>(e.deep_view()),
        },
{
    match name {
        None => Ok(ParserKind::Mercury),
        Some(n) => match find_parser(n.as_str()) {
            Some(k) => Ok(k),
            None => {
                let mut msg = copy_str("Parser with name \"");
                msg.append(n.as_str());
                msg.append("\" doesn't exist");
                Err(ErrorResponse::BAD_REQUEST(msg))
            }
        },
    }
}

/// The address of a course page.
pub fn course_page_url(course_id: &str) -> (url: String)
    ensures
        url@ == course_url(course_id@),
{
    let mut url = copy_str("https://ekursy.put.poznan.pl/course/view.php?id=");
    url.append(course_id);
    url
}

/// What a fetch of a course page gives: a fetch that did not end on the
/// course's page is a session that has expired; a body that could not be
/// read (`None`) is invalid data; otherwise the page's HTML.
pub open spec fn course_html_of(final_url: Seq<char>, course_id: Seq<char>, page: Option<Seq<char>>) -> Result<Seq<char>, ErrorView> {
    match redirect_check(final_url, course_url(course_id)) {
        Err(e) => Err(e),
        Ok(_) => match page {
            None => Err(ErrorView::REMOTE_SERVER_SENT_INVALID_DATA("ekursy course response couldnt be parsed"@)),
            Some(html) => Ok(html),
        },
    }
}

/// The HTML of a fetched course page (see [`course_html_of`]).
pub fn get_course_html(final_url: &str, course_id: &str, page: Option<String>) -> (r: Result<String, ErrorResponse>)
    ensures
        match r {
            Ok(h) => course_html_of(final_url@, course_id@, page.deep_view()) == Ok::<Seq<char>, ErrorView>(h@),
            Err(e) => course_html_of(final_url@, course_id@, page.deep_view()) == Err::<Seq<char>, ErrorView>(e.deep_view()),
        },
{
    let url = course_page_url(course_id);
    check_not_redirected(final_url, url.as_str())?;
    match page {
        None => Err(ErrorResponse::REMOTE_SERVER_SENT_INVALID_DATA(copy_str("ekursy course response couldnt be parsed"))),
        Some(html) => Ok(html),
    }
}

} // verus!
