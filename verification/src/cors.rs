use crate::text::{chars_of, decimal, decimal_text, flag, flag_text, is_listed, is_text, listed};
use crate::wire::{
    allow_credentials_key, allow_credentials_name, allow_headers_key, allow_headers_name,
    allow_methods_key, allow_methods_name, allow_origin_key, allow_origin_name, bare_response,
    looked_up, max_age_key, max_age_name, no_headers, origin_key, origin_name, request_header,
    request_headers, request_method_key, request_method_name, response_body, response_headers,
    lemma_response_keys_differ, response_status, set_response_header, Headers,
};
use spin_sdk::http::{Request, Response};
use vstd::prelude::*;

verus! {

/// Allows every HTTP method.
pub const ALL_METHODS: &'static str = "*";

/// Allows every request header.
pub const ALL_HEADERS: &'static str = "*";

/// Allows every origin.
pub const ALL_ORIGINS: &'static str = "*";

/// Allows no origin.
pub const NO_ORIGINS: &'static str = "NULL";

/// The CORS policy of one interceptor.
pub struct Config {
    /// The origins to allow: `"*"`, `"NULL"`, or origins joined by commas.
    pub allowed_origins: String,
    /// The HTTP methods to allow: `"*"`, or methods joined by commas.
    pub allowed_methods: String,
    /// The request headers to allow, joined by commas; stated as given.
    pub allowed_headers: String,
    /// Whether credentials are allowed.
    pub allow_credentials: bool,
    /// For how many seconds a preflight may be cached, if stated.
    pub max_age: Option<u32>,
}

impl Config {
    /// Whether the policy allows `origin`: never where the allowed origins
    /// are empty or `"NULL"`, always where they are `"*"`, else where
    /// `origin` is one of the entries.
    pub open spec fn permits_origin(&self, origin: Seq<char>) -> bool {
        let allowed = self.allowed_origins@;
        if allowed.len() == 0 || allowed == NO_ORIGINS@ {
            false
        } else if allowed == ALL_ORIGINS@ {
            true
        } else {
            listed(allowed, origin)
        }
    }

    /// Whether the policy allows `method`: never where the allowed methods
    /// are empty, always where they are `"*"`, else where `method` is one of
    /// the entries.
    pub open spec fn permits_method(&self, method: Seq<char>) -> bool {
        let allowed = self.allowed_methods@;
        if allowed.len() == 0 {
            false
        } else if allowed == ALL_METHODS@ {
            true
        } else {
            listed(allowed, method)
        }
    }

    /// The origins that a decorated response states: the allowed origins as
    /// configured, or `"NULL"` where none are configured.
    pub open spec fn stated_origins(&self) -> Seq<char> {
        if self.allowed_origins@.len() == 0 {
            NO_ORIGINS@
        } else {
            self.allowed_origins@
        }
    }

    /// `headers` with the max-age header set, where a max-age is configured.
    pub open spec fn with_max_age(&self, headers: Headers) -> Headers {
        match self.max_age {
            Some(age) => headers.insert(max_age_key(), Some(decimal(age as nat))),
            None => headers,
        }
    }

    /// `headers` with the CORS headers set as configured, whatever the
    /// request was.
    pub open spec fn decorated(&self, headers: Headers) -> Headers {
        self.with_max_age(
            headers.insert(allow_origin_key(), Some(self.stated_origins())).insert(
                allow_methods_key(),
                Some(self.allowed_methods@),
            ).insert(allow_headers_key(), Some(self.allowed_headers@)).insert(
                allow_credentials_key(),
                Some(flag(self.allow_credentials)),
            ),
        )
    }

    /// The headers that grant a preflight for `method` from `origin`.
    pub open spec fn granted(&self, origin: Seq<char>, method: Seq<char>) -> Headers {
        self.with_max_age(
            no_headers().insert(allow_origin_key(), Some(origin)).insert(
                allow_methods_key(),
                Some(method),
            ).insert(allow_headers_key(), Some(self.allowed_headers@)).insert(
                allow_credentials_key(),
                Some(flag(self.allow_credentials)),
            ),
        )
    }

    /// The headers of the answer to a preflight whose headers are `request`:
    /// the grant where origin and requested method are both stated as
    /// non-empty text and both allowed, else none.
    pub open spec fn preflight_headers(&self, request: Headers) -> Headers {
        match (looked_up(request, origin_key()), looked_up(request, request_method_key())) {
            (Some(Some(origin)), Some(Some(method))) => {
                if origin.len() > 0 && method.len() > 0 && self.permits_origin(origin)
                    && self.permits_method(method) {
                    self.granted(origin, method)
                } else {
                    no_headers()
                }
            },
            _ => no_headers(),
        }
    }

    /// `res` answers the preflight `req` under this policy: status 204, no
    /// body, and the headers that the policy gives for the request.
    pub open spec fn answers_preflight(&self, req: Request, res: Response) -> bool {
        &&& response_status(res) == 204
        &&& response_body(res) == Seq::<u8>::empty()
        &&& response_headers(res) == self.preflight_headers(request_headers(req))
    }

    /// `out` is `res` decorated under this policy: the CORS headers are set
    /// as configured; status, body and the other headers are those of `res`.
    pub open spec fn decorates(&self, res: Response, out: Response) -> bool {
        &&& response_headers(out) == self.decorated(response_headers(res))
        &&& response_status(out) == response_status(res)
        &&& response_body(out) == response_body(res)
    }

    /// Whether `origin` is allowed.
    pub fn is_origin_allowed(&self, origin: &str) -> (allowed: bool)
        ensures
            allowed == self.permits_origin(origin@),
    {
        let list = chars_of(self.allowed_origins.as_str());
        if list.len() == 0 || is_text(&list, NO_ORIGINS) {
            return false;
        }
        if is_text(&list, ALL_ORIGINS) {
            return true;
        }
        let item = chars_of(origin);
        is_listed(&list, &item)
    }

    /// Whether the HTTP method `method` is allowed.
    pub fn is_method_allowed(&self, method: &str) -> (allowed: bool)
        ensures
            allowed == self.permits_method(method@),
    {
        let list = chars_of(self.allowed_methods.as_str());
        if list.len() == 0 {
            return false;
        }
        if is_text(&list, ALL_METHODS) {
            return true;
        }
        let item = chars_of(method);
        is_listed(&list, &item)
    }
}

/// Sets the max-age header on `res` where the policy states a max-age.
fn set_max_age(res: &mut Response, cors_config: &Config)
    ensures
        response_headers(*final(res)) == cors_config.with_max_age(response_headers(*old(res))),
        response_status(*final(res)) == response_status(*old(res)),
        response_body(*final(res)) == response_body(*old(res)),
{
    match cors_config.max_age {
        Some(age) => {
            let text = decimal_text(age);
            set_response_header(res, max_age_name(), text.as_str());
        },
        None => {},
    }
}

/// Decorates a response with the CORS headers of the policy. The values are
/// those configured; the request is not looked at.
pub fn response_with_cors<'a>(req: &'a mut Response, cors_config: &Config) -> (out: &'a Response)
    ensures
        cors_config.decorates(*old(req), *final(req)),
        *out == *final(req),
{
    let origin = if cors_config.allowed_origins.as_str().is_empty() {
        NO_ORIGINS
    } else {
        cors_config.allowed_origins.as_str()
    };
    set_response_header(req, allow_origin_name(), origin);
    set_response_header(req, allow_methods_name(), cors_config.allowed_methods.as_str());
    set_response_header(req, allow_headers_name(), cors_config.allowed_headers.as_str());
    set_response_header(req, allow_credentials_name(), flag_text(cors_config.allow_credentials));
    set_max_age(req, cors_config);
    req
}

/// Answers a preflight: always with status 204 and no body. The answer
/// carries the grant where the request states an origin and a requested
/// method, both non-empty text, and the policy allows both; else it carries
/// no header at all.
pub fn handle_preflight(req: &Request, cors_config: &Config) -> (res: Response)
    ensures
        cors_config.answers_preflight(*req, res),
{
    proof {
        reveal_strlit("origin");
        reveal_strlit("access-control-request-method");
    }
    let origin = match request_header(req, origin_name()) {
        Some(Some(origin)) => origin,
        _ => {
            return bare_response(204);
        },
    };
    let method = match request_header(req, request_method_name()) {
        Some(Some(method)) => method,
        _ => {
            return bare_response(204);
        },
    };
    if origin.is_empty() || method.is_empty() {
        return bare_response(204);
    }
    if cors_config.is_origin_allowed(origin) && cors_config.is_method_allowed(method) {
        let mut res = bare_response(204);
        set_response_header(&mut res, allow_origin_name(), origin);
        set_response_header(&mut res, allow_methods_name(), method);
        set_response_header(&mut res, allow_headers_name(), cors_config.allowed_headers.as_str());
        set_response_header(
            &mut res,
            allow_credentials_name(),
            flag_text(cors_config.allow_credentials),
        );
        set_max_age(&mut res, cors_config);
        return res;
    }
    bare_response(204)
}

/// Where the allowed origins are `"*"`, every origin is allowed.
pub proof fn law_wildcard_allows_every_origin(config: Config, origin: Seq<char>)
    requires
        config.allowed_origins@ == ALL_ORIGINS@,
    ensures
        config.permits_origin(origin),
{
    reveal_strlit("*");
    reveal_strlit("NULL");
    assert(ALL_ORIGINS@.len() == 1);
    assert(NO_ORIGINS@.len() == 4);
}

/// Where the allowed origins are empty or `"NULL"`, no origin is allowed.
pub proof fn law_none_allows_no_origin(config: Config, origin: Seq<char>)
    requires
        config.allowed_origins@.len() == 0 || config.allowed_origins@ == NO_ORIGINS@,
    ensures
        !config.permits_origin(origin),
{
}

/// Where the allowed methods are `"*"`, every method is allowed; where they
/// are empty, none is.
pub proof fn law_method_sentinels(config: Config, method: Seq<char>)
    ensures
        config.allowed_methods@ == ALL_METHODS@ ==> config.permits_method(method),
        config.allowed_methods@.len() == 0 ==> !config.permits_method(method),
{
    reveal_strlit("*");
    assert(ALL_METHODS@.len() == 1);
}

/// A decorated response states the policy in all four mandatory CORS
/// headers, and the max-age where one is configured, whatever headers the
/// response had and whatever the request was. Every other header is as it
/// was.
pub proof fn law_decorated_states_policy(config: Config, headers: Headers)
    ensures
        looked_up(config.decorated(headers), allow_origin_key()) == Some(
            Some(config.stated_origins()),
        ),
        looked_up(config.decorated(headers), allow_methods_key()) == Some(
            Some(config.allowed_methods@),
        ),
        looked_up(config.decorated(headers), allow_headers_key()) == Some(
            Some(config.allowed_headers@),
        ),
        looked_up(config.decorated(headers), allow_credentials_key()) == Some(
            Some(flag(config.allow_credentials)),
        ),
        config.max_age matches Some(age) ==> looked_up(config.decorated(headers), max_age_key())
            == Some(Some(decimal(age as nat))),
        config.max_age is None ==> looked_up(config.decorated(headers), max_age_key())
            == looked_up(headers, max_age_key()),
        forall|name: Seq<char>|
            name != allow_origin_key() && name != allow_methods_key() && name
                != allow_headers_key() && name != allow_credentials_key() && name != max_age_key()
                ==> looked_up(config.decorated(headers), name) == looked_up(headers, name),
{
    lemma_response_keys_differ();
}

/// An OPTIONS request that states no requested method, or no origin, is
/// answered with status 204 and no header at all.
pub proof fn law_bare_options_gets_no_header(config: Config, req: Request, res: Response)
    requires
        config.answers_preflight(req, res),
        looked_up(request_headers(req), request_method_key()) is None || looked_up(
            request_headers(req),
            origin_key(),
        ) is None,
    ensures
        response_status(res) == 204,
        response_headers(res) == no_headers(),
{
}

/// A preflight whose origin or requested method is not allowed, is empty,
/// or is no text, is answered with status 204 and no header at all.
pub proof fn law_denied_preflight_gets_no_header(config: Config, req: Request, res: Response)
    requires
        config.answers_preflight(req, res),
        match (
            looked_up(request_headers(req), origin_key()),
            looked_up(request_headers(req), request_method_key()),
        ) {
            (Some(Some(origin)), Some(Some(method))) => origin.len() == 0 || method.len() == 0
                || !config.permits_origin(origin) || !config.permits_method(method),
            _ => true,
        },
    ensures
        response_status(res) == 204,
        response_headers(res) == no_headers(),
{
}

/// A preflight from an allowed origin for an allowed method is answered
/// with status 204 and a grant: the origin and the method are those of the
/// request (the one method asked for, not the methods configured), the
/// allowed headers and the credentials flag are those configured, and the
/// max-age is stated exactly where one is configured. No other header is
/// set.
pub proof fn law_allowed_preflight_is_granted(
    config: Config,
    req: Request,
    res: Response,
    origin: Seq<char>,
    method: Seq<char>,
)
    requires
        config.answers_preflight(req, res),
        looked_up(request_headers(req), origin_key()) == Some(Some(origin)),
        looked_up(request_headers(req), request_method_key()) == Some(Some(method)),
        origin.len() > 0,
        method.len() > 0,
        config.permits_origin(origin),
        config.permits_method(method),
    ensures
        response_status(res) == 204,
        looked_up(response_headers(res), allow_origin_key()) == Some(Some(origin)),
        looked_up(response_headers(res), allow_methods_key()) == Some(Some(method)),
        looked_up(response_headers(res), allow_headers_key()) == Some(
            Some(config.allowed_headers@),
        ),
        looked_up(response_headers(res), allow_credentials_key()) == Some(
            Some(flag(config.allow_credentials)),
        ),
        config.max_age matches Some(age) ==> looked_up(response_headers(res), max_age_key())
            == Some(Some(decimal(age as nat))),
        config.max_age is None ==> looked_up(response_headers(res), max_age_key()) is None,
        forall|name: Seq<char>|
            name != allow_origin_key() && name != allow_methods_key() && name
                != allow_headers_key() && name != allow_credentials_key() && name != max_age_key()
                ==> looked_up(response_headers(res), name) is None,
{
    lemma_response_keys_differ();
}

/// Two answers to the same preflight under the same policy agree in status,
/// headers and body; so do two decorations of the same response.
pub proof fn law_answers_agree(
    config: Config,
    req: Request,
    first: Response,
    second: Response,
    res: Response,
    out_first: Response,
    out_second: Response,
)
    requires
        config.answers_preflight(req, first),
        config.answers_preflight(req, second),
        config.decorates(res, out_first),
        config.decorates(res, out_second),
    ensures
        response_status(first) == response_status(second),
        response_headers(first) == response_headers(second),
        response_body(first) == response_body(second),
        response_status(out_first) == response_status(out_second),
        response_headers(out_first) == response_headers(out_second),
        response_body(out_first) == response_body(out_second),
{
}

} // verus!
