//! `/api/login`: signing in through the university's single sign-on
//! (elogin) and reading the Moodle session key out of the cookies.
//!
//! The requests are made by the server; this module holds what is decided
//! between them: the CSRF token of the login form, the fields of the
//! redirect form, whether the login was refused, and the session key.
use vstd::prelude::*;
use crate::dom::{page_first, select_first_in_page, attr_of, document_tree, first_below, flags_for, node_attr, parse_document, select_first, selector_matches, Document};
use crate::errors::{ErrorResponse, ErrorView};
use crate::text::{copy_str, has_prefix, starts_with};

verus! {

/// The body of `/api/login`.
#[derive(Debug, PartialEq, Eq)]
pub struct SignIn {
    pub email: String,
    pub password: String,
}

/// The login form sent to elogin.
#[derive(Debug, PartialEq, Eq)]
pub struct EloginSignIn {
    pub login: String,
    pub password: String,
    pub csrf_token: String,
    pub send: String,
}

/// The fields of the form that carries the sign-on back to Moodle. The
/// camel-case names are the ones the form uses.
#[allow(non_snake_case)]
#[derive(Debug, PartialEq, Eq)]
pub struct Redirect2Data {
    pub version: String,
    pub language: String,
    pub gravatar_hash: String,
    pub gravatarHash: String,
    pub sessionAuthorizationKey: String,
}

/// The mathematical value of a [`Redirect2Data`].
pub struct Redirect2View {
    pub version: Seq<char>,
    pub language: Seq<char>,
    pub gravatar_hash: Seq<char>,
    pub gravatar_hash_camel: Seq<char>,
    pub session_authorization_key: Seq<char>,
}

impl DeepView for Redirect2Data {
    type V = Redirect2View;

    open spec fn deep_view(&self) -> Redirect2View {
        Redirect2View {
            version: self.version@,
            language: self.language@,
            gravatar_hash: self.gravatar_hash@,
            gravatar_hash_camel: self.gravatarHash@,
            session_authorization_key: self.sessionAuthorizationKey@,
        }
    }
}

/// The CSRF token of the login page: the `value` of its first
/// `input[name=csrf_token]`.
pub open spec fn csrf_token_of(html: Seq<char>) -> Result<Seq<char>, ErrorView> {
    match page_first(document_tree(html), selector_matches(html, "input[name=csrf_token]"@)) {
        None => Err(ErrorView::REMOTE_SERVER_SENT_INVALID_DATA("CSRF token field missing"@)),
        Some(input) => match attr_of(input, "value"@) {
            Some(v) => Ok(v),
            None => Err(ErrorView::REMOTE_SERVER_SENT_INVALID_DATA("CSRF token field doesnt have value attr"@)),
        },
    }
}

/// Reads the CSRF token of the login page (see [`csrf_token_of`]).
pub fn get_csrf_token(login_page_content: String) -> (r: Result<String, ErrorResponse>)
    ensures
        match r {
            Ok(v) => csrf_token_of(login_page_content@) == Ok::<Seq<char>, ErrorView>(v@),
            Err(e) => csrf_token_of(login_page_content@) == Err::<Seq<char>, ErrorView>(e.deep_view()),
        },
{
    let document = parse_document(login_page_content.as_str());
    let flags = flags_for(&document, "input[name=csrf_token]");
    match select_first_in_page(&document.root, &flags) {
        None => Err(ErrorResponse::REMOTE_SERVER_SENT_INVALID_DATA(copy_str("CSRF token field missing"))),
        Some(element) => match node_attr(element, "value") {
            Some(v) => Ok(v),
            None => Err(ErrorResponse::REMOTE_SERVER_SENT_INVALID_DATA(
                copy_str("CSRF token field doesnt have value attr"),
            )),
        },
    }
}

/// The `value` of the first input that `selector` matches.
pub open spec fn input_value(html: Seq<char>, selector: Seq<char>) -> Result<Seq<char>, ErrorView> {
    match page_first(document_tree(html), selector_matches(html, selector)) {
        None => Err(ErrorView::REMOTE_SERVER_SENT_INVALID_DATA("Missing input field: "@ + selector)),
        Some(input) => match attr_of(input, "value"@) {
            Some(v) => Ok(v),
            None => Err(ErrorView::REMOTE_SERVER_SENT_INVALID_DATA("Input field doesnt have value: "@ + selector)),
        },
    }
}

/// The fields of the redirect form, read in the order version, language,
/// gravatar_hash, gravatarHash, sessionAuthorizationKey; the first one that
/// is missing or has no value is the error.
pub open spec fn redirect2_of(html: Seq<char>) -> Result<Redirect2View, ErrorView> {
    match input_value(html, "input[name=version]"@) {
        Err(e) => Err(e),
        Ok(version) => match input_value(html, "input[name=language]"@) {
            Err(e) => Err(e),
            Ok(language) => match input_value(html, "input[name=gravatar_hash]"@) {
                Err(e) => Err(e),
                Ok(gravatar_hash) => match input_value(html, "input[name=gravatarHash]"@) {
                    Err(e) => Err(e),
                    Ok(gravatar_hash_camel) => match input_value(html, "input[name=sessionAuthorizationKey]"@) {
                        Err(e) => Err(e),
                        Ok(session_authorization_key) => Ok(Redirect2View {
                            version,
                            language,
                            gravatar_hash,
                            gravatar_hash_camel,
                            session_authorization_key,
                        }),
                    },
                },
            },
        },
    }
}

fn input_value_exec(document: &Document, selector: &str) -> (r: Result<String, ErrorResponse>)
    requires
        document.root.deep_view() == document_tree(document.source@),
    ensures
        match r {
            Ok(v) => input_value(document.source@, selector@) == Ok::<Seq<char>, ErrorView>(v@),
            Err(e) => input_value(document.source@, selector@) == Err::<Seq<char>, ErrorView>(e.deep_view()),
        },
{
    let flags = flags_for(document, selector);
    match select_first_in_page(&document.root, &flags) {
        None => {
            let mut msg = copy_str("Missing input field: ");
            msg.append(selector);
            Err(ErrorResponse::REMOTE_SERVER_SENT_INVALID_DATA(msg))
        }
        Some(input) => match node_attr(input, "value") {
            Some(v) => Ok(v),
            None => {
                let mut msg = copy_str("Input field doesnt have value: ");
                msg.append(selector);
                Err(ErrorResponse::REMOTE_SERVER_SENT_INVALID_DATA(msg))
            }
        },
    }
}

/// Reads the fields of the redirect form (see [`redirect2_of`]).
pub fn get_redirect2_data(redirect1_page_content: String) -> (r: Result<Redirect2Data, ErrorResponse>)
    ensures
        match r {
            Ok(d) => redirect2_of(redirect1_page_content@) == Ok::<Redirect2View, ErrorView>(d.deep_view()),
            Err(e) => redirect2_of(redirect1_page_content@) == Err::<Redirect2View, ErrorView>(e.deep_view()),
        },
{
    let document = parse_document(redirect1_page_content.as_str());
    let version = match input_value_exec(&document, "input[name=version]") {
        Ok(v) => v,
        Err(e) => return Err(e),
    };
    let language = match input_value_exec(&document, "input[name=language]") {
        Ok(v) => v,
        Err(e) => return Err(e),
    };
    let gravatar_hash = match input_value_exec(&document, "input[name=gravatar_hash]") {
        Ok(v) => v,
        Err(e) => return Err(e),
    };
    let gravatar_hash_camel = match input_value_exec(&document, "input[name=gravatarHash]") {
        Ok(v) => v,
        Err(e) => return Err(e),
    };
    let session_authorization_key = match input_value_exec(&document, "input[name=sessionAuthorizationKey]") {
        Ok(v) => v,
        Err(e) => return Err(e),
    };
    Ok(Redirect2Data {
        version,
        language,
        gravatar_hash,
        gravatarHash: gravatar_hash_camel,
        sessionAuthorizationKey: session_authorization_key,
    })
}

/// The login form for the given credentials and CSRF token.
pub fn elogin_form(sign_in: SignIn, csrf: String) -> (f: EloginSignIn)
    ensures
        f.login@ == sign_in.email@,
        f.password@ == sign_in.password@,
        f.csrf_token@ == csrf@,
        f.send@ == Seq::<char>::empty(),
{
    EloginSignIn { login: sign_in.email, password: sign_in.password, csrf_token: csrf, send: String::new() }
}

/// After posting the login form: landing on the login page again means the
/// credentials were refused.
pub fn check_login_result(final_url: &str, elogin_url: &str) -> (r: Result<(), ErrorResponse>)
    ensures
        match r {
            Ok(_) => !has_prefix(final_url@, elogin_url@),
            Err(e) => has_prefix(final_url@, elogin_url@)
                && e.deep_view() == ErrorView::AUTH_FAILED("Invalid login or password"@),
        },
{
    if starts_with(final_url, elogin_url) {
        return Err(ErrorResponse::AUTH_FAILED(copy_str("Invalid login or password")));
    }
    Ok(())
}

// ------------------------------------------------------------------
// The session key
// ------------------------------------------------------------------

/// What `cookie::Cookie::split_parse(header)` yields: for each non-blank
/// `;`-separated piece, its name and value, or `None` where it does not parse.
pub uninterp spec fn split_parsed_cookies(header: Seq<char>) -> Seq<Option<(Seq<char>, Seq<char>)>>;

/// Calls `cookie::Cookie::split_parse` on a `Cookie` header and converts
/// each parsed cookie to its name and value (`None` for a parse error). The
/// contract only names the result.
#[verifier::external_body]
fn split_cookies(header: &str) -> (out: Vec<Option<(String, String)>>)
    ensures
        out.deep_view() == split_parsed_cookies(header@),
{
    cookie::Cookie::split_parse(header).map(|r| match r {
        Ok(c) => Some((c.name().to_string(), c.value().to_string())),
        Err(_) => None,
    }).collect()
}

/// The value of the first parsed cookie named `MoodleSession`.
pub open spec fn first_moodle_session(cs: Seq<Option<(Seq<char>, Seq<char>)>>) -> Option<Seq<char>>
    decreases cs.len(),
{
    if cs.len() == 0 {
        None
    } else {
        match cs[0] {
            Some((name, value)) => if name == "MoodleSession"@ {
                Some(value)
            } else {
                first_moodle_session(cs.drop_first())
            },
            None => first_moodle_session(cs.drop_first()),
        }
    }
}

/// The session key read from the cookies Moodle set: the value of the
/// `MoodleSession` cookie, or the whole header when no cookie has that name;
/// no cookies at all is an error.
pub open spec fn session_key_of(cookies: Option<Seq<char>>) -> Result<Seq<char>, ErrorView> {
    match cookies {
        None => Err(ErrorView::REMOTE_SERVER_SENT_INVALID_DATA("Moodle Session not found in response"@)),
        Some(header) => match first_moodle_session(split_parsed_cookies(header)) {
            Some(v) => Ok(v),
            None => Ok(header),
        },
    }
}

/// Reads the session key out of the `Cookie` header the cookie jar holds
/// for Moodle (see [`session_key_of`]).
pub fn moodle_session_key(cookies: Option<String>) -> (r: Result<String, ErrorResponse>)
    ensures
        match r {
            Ok(v) => session_key_of(match cookies { Some(c) => Some(c@), None => None }) == Ok::<Seq<char>, ErrorView>(v@),
            Err(e) => session_key_of(match cookies { Some(c) => Some(c@), None => None }) == Err::<Seq<char>, ErrorView>(e.deep_view()),
        },
{
    match cookies {
        None => Err(ErrorResponse::REMOTE_SERVER_SENT_INVALID_DATA(copy_str("Moodle Session not found in response"))),
        Some(header) => {
            let parsed = split_cookies(header.as_str());
            let ghost pv = parsed.deep_view();
            let mut i: usize = 0;
            assert(pv.skip(0) =~= pv);
            while i < parsed.len()
                invariant
                    i <= parsed@.len(),
                    pv == parsed.deep_view(),
                    pv == split_parsed_cookies(header@),
                    (match cookies { Some(c) => Some(c@), None => None }) == Some(header@),
                    first_moodle_session(pv) == first_moodle_session(pv.skip(i as int)),
                decreases parsed@.len() - i,
            {
                assert(pv.skip(i as int)[0] == parsed@[i as int].deep_view());
                match &parsed[i] {
                    Some((name, value)) => {
                        if *name == copy_str("MoodleSession") {
                            assert(pv.skip(i as int)[0] == Some((name@, value@)));
                            return Ok(value.clone());
                        }
                    }
                    None => {}
                }
                assert(pv.skip(i as int).drop_first() =~= pv.skip(i + 1));
                i += 1;
            }
            Ok(header)
        }
    }
}

} // verus!
