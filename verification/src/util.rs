//! What every request to Moodle carries: the headers a desktop Firefox
//! sends, and the session cookie.
use vstd::prelude::*;
use crate::text::copy_str;

verus! {

/// The headers a desktop Firefox sends with a page request, in order, by
/// name (in the lower case a header map keeps names in) and value.
/// Page-specific ones (`Host`, `Referer`, `Origin`) are added by each
/// request.
pub open spec fn firefox_headers() -> Seq<(Seq<char>, Seq<char>)> {
    seq![
        ("user-agent"@, "Mozilla/5.0 (Windows NT 10.0; Win64; x64; rv:132.0) Gecko/20100101 Firefox/132.0"@),
        ("accept"@, "text/html,application/xhtml+xml,application/xml;q=0.9,*/*;q=0.8"@),
        ("accept-language"@, "en-US,en;q=0.5"@),
        ("accept-encoding"@, "gzip, deflate, br, zstd"@),
        ("connection"@, "keep-alive"@),
        ("upgrade-insecure-requests"@, "1"@),
        ("sec-fetch-dest"@, "document"@),
        ("sec-fetch-mode"@, "navigate"@),
        ("sec-fetch-site"@, "same-site"@),
        ("sec-fetch-user"@, "?1"@),
        ("priority"@, "u=0, i"@),
    ]
}

fn header(name: &str, value: &str) -> (h: (String, String))
    ensures
        h.0@ == name@,
        h.1@ == value@,
{
    (copy_str(name), copy_str(value))
}

/// The headers a desktop Firefox sends (see [`firefox_headers`]).
pub fn generic_firefox_headers() -> (headers: Vec<(String, String)>)
    ensures
        headers.deep_view() == firefox_headers(),
{
    let mut headers: Vec<(String, String)> = Vec::new();
    headers.push(header("user-agent", "Mozilla/5.0 (Windows NT 10.0; Win64; x64; rv:132.0) Gecko/20100101 Firefox/132.0"));
    headers.push(header("accept", "text/html,application/xhtml+xml,application/xml;q=0.9,*/*;q=0.8"));
    headers.push(header("accept-language", "en-US,en;q=0.5"));
    headers.push(header("accept-encoding", "gzip, deflate, br, zstd"));
    headers.push(header("connection", "keep-alive"));
    headers.push(header("upgrade-insecure-requests", "1"));
    headers.push(header("sec-fetch-dest", "document"));
    headers.push(header("sec-fetch-mode", "navigate"));
    headers.push(header("sec-fetch-site", "same-site"));
    headers.push(header("sec-fetch-user", "?1"));
    headers.push(header("priority", "u=0, i"));
    assert(headers.deep_view() =~= firefox_headers());
    headers
}

/// The cookie that carries a Moodle session: `MoodleSession=<id>`.
pub fn moodle_session_cookie(session_id: &str) -> (cookie: String)
    ensures
        cookie@ == "MoodleSession="@ + session_id@,
{
    let mut cookie = copy_str("MoodleSession=");
    cookie.append(session_id);
    cookie
}

} // verus!
