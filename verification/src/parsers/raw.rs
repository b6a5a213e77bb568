//! The "raw" parser: the course page itself, once it is known to be one.
use vstd::prelude::*;
use crate::dom::{page_first, select_first_in_page, document_tree, first_below, flags_for, parse_document, select_first, selector_matches};
use crate::errors::{session_expired, ErrorResponse, ErrorView};

verus! {

/// The name under which this parser is offered.
pub const NAME: &'static str = "raw";

/// The parser that hands the course page back as it is.
#[derive(Debug, PartialEq, Eq)]
pub struct RawParser;

/// The page holds a `div.course-content`.
pub open spec fn has_course_content(html: Seq<char>) -> bool {
    page_first(document_tree(html), selector_matches(html, "div.course-content"@)) is Some
}

impl RawParser {
    /// The page as it is when it holds a `div.course-content`; otherwise the
    /// session has expired.
    pub fn parse(&self, html_string: String) -> (r: Result<String, ErrorResponse>)
        ensures
            match r {
                Ok(s) => has_course_content(html_string@) && s@ == html_string@,
                Err(e) => !has_course_content(html_string@) && e.deep_view() == ErrorView::AUTH_FAILED("Session expired"@),
            },
    {
        let document = parse_document(html_string.as_str());
        let flags = flags_for(&document, "div.course-content");
        if select_first_in_page(&document.root, &flags).is_none() {
            return Err(session_expired());
        }
        Ok(html_string)
    }
}

} // verus!
