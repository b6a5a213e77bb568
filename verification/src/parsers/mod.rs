//! Parsers that turn a fetched course page into the API's answer, and the
//! table of the parsers that `/api/course` offers.
pub mod mercury;
pub mod merkury;
pub mod raw;

use vstd::prelude::*;
use crate::errors::{ErrorResponse, ErrorView};
use crate::parsers::mercury::{mercury_result, FragmentView, MercuryParser, PageFragment};
use crate::parsers::raw::{has_course_content, RawParser};

verus! {

/// A parser that `/api/course` offers.
#[derive(Debug, PartialEq, Eq)]
pub enum ParserKind {
    Raw,
    Mercury,
}

/// The parsers on offer, by name: `raw` and `mercury`.
pub open spec fn parser_named(name: Seq<char>) -> Option<ParserKind> {
    if name == "raw"@ {
        Some(ParserKind::Raw)
    } else if name == "mercury"@ {
        Some(ParserKind::Mercury)
    } else {
        None
    }
}

/// The names of the parsers on offer.
pub fn available_parsers() -> (names: Vec<&'static str>)
    ensures
        names@.len() == 2,
        names@[0]@ == raw::NAME@,
        names@[1]@ == mercury::NAME@,
        forall|i: int| 0 <= i < names@.len() ==> parser_named(#[trigger] names@[i]@) is Some,
{
    proof {
        reveal_strlit("raw");
        reveal_strlit("mercury");
    }
    let mut names: Vec<&'static str> = Vec::new();
    names.push(raw::NAME);
    names.push(mercury::NAME);
    names
}

/// The parser with the given name, if one is on offer.
pub fn find_parser(name: &str) -> (r: Option<ParserKind>)
    ensures
        r == parser_named(name@),
{
    let given = name.to_owned();
    if given == raw::NAME.to_owned() {
        Some(ParserKind::Raw)
    } else if given == mercury::NAME.to_owned() {
        Some(ParserKind::Mercury)
    } else {
        None
    }
}

/// What a parser made of a course page.
#[derive(Debug, PartialEq, Eq)]
pub enum ParsedCourse {
    Raw(String),
    Mercury(Vec<PageFragment>),
}

/// Runs the parser `kind` on a course page. The JSON answer is
/// `{"msg": "OK", "parser": <name>, "result": <what it made>}`, or the error.
pub fn run_parser(kind: &ParserKind, html_string: String, course_id: String) -> (r: Result<ParsedCourse, ErrorResponse>)
    ensures
        *kind == ParserKind::Raw ==> match r {
            Ok(ParsedCourse::Raw(s)) => has_course_content(html_string@) && s@ == html_string@,
            Ok(ParsedCourse::Mercury(_)) => false,
            Err(e) => !has_course_content(html_string@) && e.deep_view() == ErrorView::AUTH_FAILED("Session expired"@),
        },
        *kind == ParserKind::Mercury ==> match r {
            Ok(ParsedCourse::Mercury(v)) => mercury_result(html_string@, course_id@) == Ok::<Seq<FragmentView>, ErrorView>(v.deep_view()),
            Ok(ParsedCourse::Raw(_)) => false,
            Err(e) => mercury_result(html_string@, course_id@) == Err::<Seq<FragmentView>, ErrorView>(e.deep_view()),
        },
{
    match kind {
        ParserKind::Raw => match RawParser.parse(html_string) {
            Ok(s) => Ok(ParsedCourse::Raw(s)),
            Err(e) => Err(e),
        },
        ParserKind::Mercury => match MercuryParser.parse(html_string, course_id) {
            Ok(v) => Ok(ParsedCourse::Mercury(v)),
            Err(e) => Err(e),
        },
    }
}

} // verus!
