//! `/api/resource`: an activity of a course, fetched by its kind: a file is
//! passed through (when Moodle shows it in an `iframe`, the frame's source
//! is), a link is followed.
use vstd::prelude::*;
use crate::dom::{page_first, select_first_in_page, attr_of, document_tree, first_below, flags_for, node_attr, parse_document, select_first, selector_matches};
use crate::errors::{ErrorResponse, ErrorView};
use crate::text::copy_str;

verus! {

/// The kinds of activity `/api/resource` can fetch.
#[derive(Debug, Clone, Copy, PartialEq, Eq, Structural)]
pub enum ResourceType {
    Resource,
    Url,
}

/// The kind of activity a request names; any other name cannot be read.
pub open spec fn resource_type_of(kind: Seq<char>) -> Result<ResourceType, ErrorView> {
    if kind == "resource"@ {
        Ok(ResourceType::Resource)
    } else if kind == "url"@ {
        Ok(ResourceType::Url)
    } else {
        Err(ErrorView::UNABLE_TO_PARSE_RESPONSE_TEXT("Unknown resource type"@))
    }
}

/// The kind of activity a request names (see [`resource_type_of`]).
pub fn resource_type(kind: &str) -> (r: Result<ResourceType, ErrorResponse>)
    ensures
        match r {
            Ok(t) => resource_type_of(kind@) == Ok::<ResourceType, ErrorView>(t),
            Err(e) => resource_type_of(kind@) == Err::<ResourceType, ErrorView>(e.deep_view()),
        },
{
    let given = kind.to_owned();
    if given == "resource".to_owned() {
        Ok(ResourceType::Resource)
    } else if given == "url".to_owned() {
        Ok(ResourceType::Url)
    } else {
        Err(ErrorResponse::UNABLE_TO_PARSE_RESPONSE_TEXT(copy_str("Unknown resource type")))
    }
}

/// The address of an activity's page, by its kind and id.
pub fn resource_url(kind: &str, id: &str) -> (url: String)
    ensures
        url@ == "https://ekursy.put.poznan.pl/mod/"@ + kind@ + "/view.php?id="@ + id@,
{
    let mut url = copy_str("https://ekursy.put.poznan.pl/mod/");
    url.append(kind);
    url.append("/view.php?id=");
    url.append(id);
    url
}

/// A file fetch that ended elsewhere than it asked is the file itself, sent
/// from another address.
pub fn is_external_redirect(requested: &str, final_url: &str) -> (b: bool)
    ensures
        b == (requested@ != final_url@),
{
    requested.to_owned() != final_url.to_owned()
}

/// The answer when a file's page shows no frame to pass through.
pub open spec fn no_resource_parser() -> ErrorView {
    ErrorView::BAD_REQUEST("No parser for requested resource of type \"resource\" exists"@)
}

/// Where a file's page shows the file: the `src` of its first `iframe`.
pub open spec fn iframe_target_of(html: Seq<char>) -> Result<Seq<char>, ErrorView> {
    match page_first(document_tree(html), selector_matches(html, "iframe"@)) {
        Some(frame) => match attr_of(frame, "src"@) {
            Some(src) => Ok(src),
            None => Err(no_resource_parser()),
        },
        None => Err(no_resource_parser()),
    }
}

/// Where a file's page shows the file (see [`iframe_target_of`]).
pub fn iframe_target(html: &str) -> (r: Result<String, ErrorResponse>)
    ensures
        match r {
            Ok(v) => iframe_target_of(html@) == Ok::<Seq<char>, ErrorView>(v@),
            Err(e) => iframe_target_of(html@) == Err::<Seq<char>, ErrorView>(e.deep_view()),
        },
{
    let document = parse_document(html);
    let flags = flags_for(&document, "iframe");
    let src = match select_first_in_page(&document.root, &flags) {
        Some(frame) => node_attr(frame, "src"),
        None => None,
    };
    match src {
        Some(s) => Ok(s),
        None => Err(ErrorResponse::BAD_REQUEST(copy_str("No parser for requested resource of type \"resource\" exists"))),
    }
}

/// Where a link's page points: the `href` of the first `a` inside its first
/// `.urlworkaround`; each missing step is invalid data.
pub open spec fn url_target_of(html: Seq<char>) -> Result<Seq<char>, ErrorView> {
    match page_first(document_tree(html), selector_matches(html, ".urlworkaround"@)) {
        None => Err(ErrorView::REMOTE_SERVER_SENT_INVALID_DATA("Unable to select url wrapper in resource"@)),
        Some(wrapper) => match first_below(wrapper, selector_matches(html, "a"@)) {
            None => Err(ErrorView::REMOTE_SERVER_SENT_INVALID_DATA("Unable to select url element in resource"@)),
            Some(link) => match attr_of(link, "href"@) {
                None => Err(ErrorView::REMOTE_SERVER_SENT_INVALID_DATA("Unable to select url in resource"@)),
                Some(url) => Ok(url),
            },
        },
    }
}

/// Where a link's page points (see [`url_target_of`]).
pub fn extract_url(html: &str) -> (r: Result<String, ErrorResponse>)
    ensures
        match r {
            Ok(v) => url_target_of(html@) == Ok::<Seq<char>, ErrorView>(v@),
            Err(e) => url_target_of(html@) == Err::<Seq<char>, ErrorView>(e.deep_view()),
        },
{
    let document = parse_document(html);
    let wrapper_flags = flags_for(&document, ".urlworkaround");
    let wrapper = match select_first_in_page(&document.root, &wrapper_flags) {
        Some(w) => w,
        None => {
            return Err(ErrorResponse::REMOTE_SERVER_SENT_INVALID_DATA(copy_str("Unable to select url wrapper in resource")));
        }
    };
    let link_flags = flags_for(&document, "a");
    let link = match select_first(wrapper, &link_flags) {
        Some(a) => a,
        None => {
            return Err(ErrorResponse::REMOTE_SERVER_SENT_INVALID_DATA(copy_str("Unable to select url element in resource")));
        }
    };
    match node_attr(link, "href") {
        Some(url) => Ok(url),
        None => Err(ErrorResponse::REMOTE_SERVER_SENT_INVALID_DATA(copy_str("Unable to select url in resource"))),
    }
}

} // verus!
