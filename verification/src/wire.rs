//! What the library takes on trust of the crates it works with: the HTTP
//! types and the router of spin-sdk, the context store of
//! task-local-extensions, and the header names of http. Nothing here is
//! proved; every contract states what the source of the crate shows.

use spin_sdk::http::{Request, Response, Router};
use task_local_extensions::Extensions;
use vstd::prelude::*;

verus! {

#[verifier::external_type_specification]
#[verifier::external_body]
pub struct ExRequest(Request);

#[verifier::external_type_specification]
#[verifier::external_body]
pub struct ExResponse(Response);

#[verifier::external_type_specification]
#[verifier::external_body]
pub struct ExRouter(Router);

#[verifier::external_type_specification]
#[verifier::external_body]
pub struct ExExtensions(Extensions);

/// A header map as the contracts see it: each stored name with the text of
/// its value, or `None` where the value is not UTF-8.
pub type Headers = Map<Seq<char>, Option<Seq<char>>>;

/// The headers that a request holds, by name as stored.
pub uninterp spec fn request_headers(req: Request) -> Headers;

/// Whether the method of a request is OPTIONS.
pub uninterp spec fn request_is_options(req: Request) -> bool;

/// The status code of a response.
pub uninterp spec fn response_status(res: Response) -> u16;

/// The headers that a response holds, by name as stored.
pub uninterp spec fn response_headers(res: Response) -> Headers;

/// The body of a response.
pub uninterp spec fn response_body(res: Response) -> Seq<u8>;

/// `res` is a response that the handlers of `router` give to `req`.
pub uninterp spec fn router_gives(router: Router, req: Request, res: Response) -> bool;

/// How many values a context store holds.
pub uninterp spec fn stored_count(extensions: Extensions) -> nat;

/// The name of the header in which a request states where it comes from.
pub open spec fn origin_key() -> Seq<char> {
    "origin"@
}

/// The name of the header in which a preflight asks for a method.
pub open spec fn request_method_key() -> Seq<char> {
    "access-control-request-method"@
}

/// The name of the header that states the origins allowed.
pub open spec fn allow_origin_key() -> Seq<char> {
    "access-control-allow-origin"@
}

/// The name of the header that states the methods allowed.
pub open spec fn allow_methods_key() -> Seq<char> {
    "access-control-allow-methods"@
}

/// The name of the header that states the request headers allowed.
pub open spec fn allow_headers_key() -> Seq<char> {
    "access-control-allow-headers"@
}

/// The name of the header that states whether credentials are allowed.
pub open spec fn allow_credentials_key() -> Seq<char> {
    "access-control-allow-credentials"@
}

/// The name of the header that states for how long a preflight may be cached.
pub open spec fn max_age_key() -> Seq<char> {
    "access-control-max-age"@
}

/// The five names of the CORS response headers differ from one another.
pub proof fn lemma_response_keys_differ()
    ensures
        allow_origin_key() != allow_methods_key(),
        allow_origin_key() != allow_headers_key(),
        allow_origin_key() != allow_credentials_key(),
        allow_origin_key() != max_age_key(),
        allow_methods_key() != allow_headers_key(),
        allow_methods_key() != allow_credentials_key(),
        allow_methods_key() != max_age_key(),
        allow_headers_key() != allow_credentials_key(),
        allow_headers_key() != max_age_key(),
        allow_credentials_key() != max_age_key(),
{
    reveal_strlit("access-control-allow-origin");
    reveal_strlit("access-control-allow-methods");
    reveal_strlit("access-control-allow-headers");
    reveal_strlit("access-control-allow-credentials");
    reveal_strlit("access-control-max-age");
    assert(allow_origin_key().len() == 27);
    assert(allow_methods_key().len() == 28);
    assert(allow_headers_key().len() == 28);
    assert(allow_credentials_key().len() == 32);
    assert(max_age_key().len() == 22);
    assert(allow_methods_key()[21] == 'm');
    assert(allow_headers_key()[21] == 'h');
}

/// The header map that holds nothing.
pub open spec fn no_headers() -> Headers {
    Map::empty()
}

/// A name made of the letters `a` to `z` and hyphens only. Lower-casing
/// leaves such a name as it is.
pub open spec fn is_lowercase_name(name: Seq<char>) -> bool {
    forall|i: int| 0 <= i < name.len() ==> ('a' <= #[trigger] name[i] <= 'z') || name[i] == '-'
}

/// What a lookup of `name` in `headers` gives: `None` where no header of
/// that name is stored, else the text of its value (`None` where the value
/// is not UTF-8).
pub open spec fn looked_up(headers: Headers, name: Seq<char>) -> Option<Option<Seq<char>>> {
    if headers.dom().contains(name) {
        Some(headers[name])
    } else {
        None
    }
}

/// The characters of an optional string slice.
pub open spec fn text_of(value: Option<&str>) -> Option<Seq<char>> {
    match value {
        Some(text) => Some(text@),
        None => None,
    }
}

/// `Request::header` of spin-sdk, followed by `HeaderValue::as_str` on what
/// it finds. The request looks the name up in lower case; for a name that is
/// lower case already this is the stored entry of that name. The value is
/// handed out as text, or as `None` where it is not UTF-8.
#[verifier::external_body]
pub(crate) fn request_header<'a>(req: &'a Request, name: &str) -> (value: Option<Option<&'a str>>)
    requires
        is_lowercase_name(name@),
    ensures
        match value {
            Some(text) => looked_up(request_headers(*req), name@) == Some(text_of(text)),
            None => looked_up(request_headers(*req), name@) is None,
        },
{
    req.header(name).map(|v| v.as_str())
}

/// `Request::method` of spin-sdk, told apart from `Method::Options`.
#[verifier::external_body]
pub(crate) fn is_options(req: &Request) -> (options: bool)
    ensures
        options == request_is_options(*req),
{
    matches!(req.method(), spin_sdk::http::Method::Options)
}

/// `Response::new` of spin-sdk with an empty body: the response has the
/// given status, no header and no body.
#[verifier::external_body]
pub(crate) fn bare_response(status: u16) -> (res: Response)
    ensures
        response_status(res) == status,
        response_headers(res) == no_headers(),
        response_body(res) == Seq::<u8>::empty(),
{
    Response::new(status, ())
}

/// `Response::set_header` of spin-sdk: the header is stored under `name` as
/// given, in place of any earlier value of that name. Status, body and the
/// other headers stay.
#[verifier::external_body]
pub(crate) fn set_response_header(res: &mut Response, name: &str, value: &str)
    ensures
        response_headers(*final(res)) == response_headers(*old(res)).insert(
            name@,
            Some(value@),
        ),
        response_status(*final(res)) == response_status(*old(res)),
        response_body(*final(res)) == response_body(*old(res)),
{
    res.set_header(name, value)
}

/// `Router::handle` of spin-sdk. Which response comes back is up to the
/// handlers registered with the router: the contract says no more than
/// that the response is one that this router gives to this request. A
/// handler that panics, or that never completes, does so here too.
#[verifier::external_body]
pub(crate) fn dispatch(router: &Router, req: Request) -> (res: Response)
    ensures
        router_gives(*router, req, res),
{
    router.handle(req)
}

/// `Extensions::new` of task-local-extensions: a context store that holds
/// nothing.
pub assume_specification[ Extensions::new ]() -> (extensions: Extensions)
    ensures
        stored_count(extensions) == 0,
;

/// `HeaderName::as_str` of http on its constant `ORIGIN`: the name in
/// lower case, `origin`.
#[verifier::external_body]
pub(crate) fn origin_name() -> (name: &'static str)
    ensures
        name@ == origin_key(),
{
    http::header::ORIGIN.as_str()
}

/// `HeaderName::as_str` of http on its constant `ACCESS_CONTROL_REQUEST_METHOD`: the name in
/// lower case, `access-control-request-method`.
#[verifier::external_body]
pub(crate) fn request_method_name() -> (name: &'static str)
    ensures
        name@ == request_method_key(),
{
    http::header::ACCESS_CONTROL_REQUEST_METHOD.as_str()
}

/// `HeaderName::as_str` of http on its constant `ACCESS_CONTROL_ALLOW_ORIGIN`: the name in
/// lower case, `access-control-allow-origin`.
#[verifier::external_body]
pub(crate) fn allow_origin_name() -> (name: &'static str)
    ensures
        name@ == allow_origin_key(),
{
    http::header::ACCESS_CONTROL_ALLOW_ORIGIN.as_str()
}

/// `HeaderName::as_str` of http on its constant `ACCESS_CONTROL_ALLOW_METHODS`: the name in
/// lower case, `access-control-allow-methods`.
#[verifier::external_body]
pub(crate) fn allow_methods_name() -> (name: &'static str)
    ensures
        name@ == allow_methods_key(),
{
    http::header::ACCESS_CONTROL_ALLOW_METHODS.as_str()
}

/// `HeaderName::as_str` of http on its constant `ACCESS_CONTROL_ALLOW_HEADERS`: the name in
/// lower case, `access-control-allow-headers`.
#[verifier::external_body]
pub(crate) fn allow_headers_name() -> (name: &'static str)
    ensures
        name@ == allow_headers_key(),
{
    http::header::ACCESS_CONTROL_ALLOW_HEADERS.as_str()
}

/// `HeaderName::as_str` of http on its constant `ACCESS_CONTROL_ALLOW_CREDENTIALS`: the name in
/// lower case, `access-control-allow-credentials`.
#[verifier::external_body]
pub(crate) fn allow_credentials_name() -> (name: &'static str)
    ensures
        name@ == allow_credentials_key(),
{
    http::header::ACCESS_CONTROL_ALLOW_CREDENTIALS.as_str()
}

/// `HeaderName::as_str` of http on its constant `ACCESS_CONTROL_MAX_AGE`: the name in
/// lower case, `access-control-max-age`.
#[verifier::external_body]
pub(crate) fn max_age_name() -> (name: &'static str)
    ensures
        name@ == max_age_key(),
{
    http::header::ACCESS_CONTROL_MAX_AGE.as_str()
}

} // verus!
