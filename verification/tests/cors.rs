use spin_cors_router_middleware::{
    handle_preflight, response_with_cors, Config, ALL_HEADERS, ALL_METHODS, ALL_ORIGINS,
    NO_ORIGINS,
};
use spin_sdk::http::{Method, Request, RequestBuilder, Response, ResponseBuilder};

fn policy(origins: &str, methods: &str) -> Config {
    Config {
        allowed_origins: origins.to_string(),
        allowed_methods: methods.to_string(),
        allowed_headers: "content-type,x-token".to_string(),
        allow_credentials: false,
        max_age: None,
    }
}

fn header<'a>(res: &'a Response, name: &str) -> Option<&'a str> {
    res.header(name).map(|value| value.as_str().unwrap())
}

fn header_names(res: &Response) -> Vec<String> {
    let mut names: Vec<String> = res.headers().map(|(name, _)| name.to_string()).collect();
    names.sort();
    names
}

fn preflight(origin: Option<&str>, method: Option<&str>) -> Request {
    let mut req = Request::new(Method::Options, "/");
    if let Some(origin) = origin {
        req.set_header("origin", origin);
    }
    if let Some(method) = method {
        req.set_header("access-control-request-method", method);
    }
    req
}

#[test]
fn request_with_cors_sets_origins() {
    let origin = "http://localhost:3000";
    let cfg = Config {
        allowed_origins: origin.to_string(),
        allowed_methods: ALL_METHODS.to_string(),
        allowed_headers: ALL_HEADERS.to_string(),
        allow_credentials: true,
        max_age: None,
    };
    let mut res = ResponseBuilder::new(200).build();
    let sut = response_with_cors(&mut res, &cfg);

    let actual = sut
        .header(http::header::ACCESS_CONTROL_ALLOW_ORIGIN.as_str())
        .unwrap()
        .as_str()
        .unwrap();
    assert_eq!(actual, origin);
}

#[test]
fn request_with_cors_null_when_origins_is_empty() {
    let origin = "";
    let cfg = Config {
        allowed_origins: origin.to_string(),
        allowed_methods: ALL_METHODS.to_string(),
        allowed_headers: ALL_HEADERS.to_string(),
        allow_credentials: true,
        max_age: None,
    };
    let mut res = ResponseBuilder::new(200).build();
    let sut = response_with_cors(&mut res, &cfg);

    let actual = sut
        .header(http::header::ACCESS_CONTROL_ALLOW_ORIGIN.as_str())
        .unwrap()
        .as_str()
        .unwrap();
    assert_eq!(actual, NO_ORIGINS);
}

#[test]
fn sentinels_have_their_literal_values() {
    assert_eq!(ALL_ORIGINS, "*");
    assert_eq!(ALL_METHODS, "*");
    assert_eq!(ALL_HEADERS, "*");
    assert_eq!(NO_ORIGINS, "NULL");
}

#[test]
fn wildcard_allows_every_origin() {
    let cfg = policy(ALL_ORIGINS, "GET");
    assert!(cfg.is_origin_allowed("http://a.com"));
    assert!(cfg.is_origin_allowed("anything at all"));
    assert!(cfg.is_origin_allowed("NULL"));
    assert!(cfg.is_origin_allowed(""));
}

#[test]
fn empty_origins_allow_nothing() {
    let cfg = policy("", "GET");
    assert!(!cfg.is_origin_allowed("http://a.com"));
    assert!(!cfg.is_origin_allowed("*"));
    assert!(!cfg.is_origin_allowed(""));
}

#[test]
fn none_sentinel_allows_nothing() {
    let cfg = policy(NO_ORIGINS, "GET");
    assert!(!cfg.is_origin_allowed("http://a.com"));
    assert!(!cfg.is_origin_allowed("NULL"));
    assert!(!cfg.is_origin_allowed(""));
}

#[test]
fn listed_origins_are_allowed_and_others_are_not() {
    let cfg = policy("http://a.com,http://b.com", "GET");
    assert!(cfg.is_origin_allowed("http://a.com"));
    assert!(cfg.is_origin_allowed("http://b.com"));
    assert!(!cfg.is_origin_allowed("http://c.com"));
}

#[test]
fn origins_match_exactly() {
    let cfg = policy("http://a.com, http://b.com,http://c.com:8080", "GET");
    assert!(!cfg.is_origin_allowed("http://A.com"));
    assert!(!cfg.is_origin_allowed("http://a.com/"));
    assert!(!cfg.is_origin_allowed("http://a.co"));
    assert!(!cfg.is_origin_allowed("a.com"));
    assert!(!cfg.is_origin_allowed("http://b.com"));
    assert!(cfg.is_origin_allowed(" http://b.com"));
    assert!(!cfg.is_origin_allowed("http://c.com"));
    assert!(cfg.is_origin_allowed("http://c.com:8080"));
    assert!(!cfg.is_origin_allowed("http://a.com, http://b.com"));
    assert!(!cfg.is_origin_allowed("http://a.com,"));
    assert!(!cfg.is_origin_allowed(""));
}

#[test]
fn a_single_origin_is_a_list_of_one() {
    let cfg = policy("http://only.example", "GET");
    assert!(cfg.is_origin_allowed("http://only.example"));
    assert!(!cfg.is_origin_allowed("http://only.exampl"));
    assert!(!cfg.is_origin_allowed("http://only.example2"));
}

#[test]
fn empty_entries_match_the_empty_origin() {
    assert!(policy("http://a.com,,http://b.com", "GET").is_origin_allowed(""));
    assert!(policy("http://a.com,", "GET").is_origin_allowed(""));
    assert!(policy(",http://a.com", "GET").is_origin_allowed(""));
    assert!(policy(",", "GET").is_origin_allowed(""));
    assert!(!policy("http://a.com,http://b.com", "GET").is_origin_allowed(""));
}

#[test]
fn a_wildcard_among_entries_is_a_literal() {
    let cfg = policy("*,http://a.com", "GET");
    assert!(cfg.is_origin_allowed("*"));
    assert!(cfg.is_origin_allowed("http://a.com"));
    assert!(!cfg.is_origin_allowed("http://b.com"));
}

#[test]
fn origins_beyond_ascii_are_compared_by_character() {
    let cfg = policy("http://bücher.example,http://münchen.example", "GET");
    assert!(cfg.is_origin_allowed("http://münchen.example"));
    assert!(!cfg.is_origin_allowed("http://munchen.example"));
}

#[test]
fn methods_follow_the_same_rules() {
    assert!(policy("*", ALL_METHODS).is_method_allowed("DELETE"));
    assert!(policy("*", ALL_METHODS).is_method_allowed(""));
    assert!(!policy("*", "").is_method_allowed("GET"));
    assert!(!policy("*", "").is_method_allowed(""));
    let cfg = policy("*", "GET,POST");
    assert!(cfg.is_method_allowed("GET"));
    assert!(cfg.is_method_allowed("POST"));
    assert!(!cfg.is_method_allowed("PUT"));
    assert!(!cfg.is_method_allowed("get"));
    assert!(!cfg.is_method_allowed("GET,POST"));
}

#[test]
fn the_none_sentinel_is_an_ordinary_method_entry() {
    assert!(policy("*", "NULL").is_method_allowed("NULL"));
    assert!(!policy("*", "NULL").is_method_allowed("GET"));
}

#[test]
fn decoration_sets_all_four_headers_as_configured() {
    let cfg = policy("http://a.com,http://b.com", "GET,POST");
    let mut res = ResponseBuilder::new(200).build();
    response_with_cors(&mut res, &cfg);
    assert_eq!(
        header(&res, "access-control-allow-origin"),
        Some("http://a.com,http://b.com")
    );
    assert_eq!(header(&res, "access-control-allow-methods"), Some("GET,POST"));
    assert_eq!(
        header(&res, "access-control-allow-headers"),
        Some("content-type,x-token")
    );
    assert_eq!(header(&res, "access-control-allow-credentials"), Some("false"));
    assert_eq!(header(&res, "access-control-max-age"), None);
    assert_eq!(
        header_names(&res),
        vec![
            "access-control-allow-credentials",
            "access-control-allow-headers",
            "access-control-allow-methods",
            "access-control-allow-origin",
        ]
    );
}

#[test]
fn decoration_uses_the_header_names_of_the_http_crate() {
    let mut cfg = policy("*", "*");
    cfg.max_age = Some(1);
    let mut res = ResponseBuilder::new(200).build();
    response_with_cors(&mut res, &cfg);
    assert!(res.header(http::header::ACCESS_CONTROL_ALLOW_ORIGIN.as_str()).is_some());
    assert!(res.header(http::header::ACCESS_CONTROL_ALLOW_METHODS.as_str()).is_some());
    assert!(res.header(http::header::ACCESS_CONTROL_ALLOW_HEADERS.as_str()).is_some());
    assert!(res.header(http::header::ACCESS_CONTROL_ALLOW_CREDENTIALS.as_str()).is_some());
    assert!(res.header(http::header::ACCESS_CONTROL_MAX_AGE.as_str()).is_some());
    assert_eq!(header_names(&res).len(), 5);
}

#[test]
fn decoration_states_credentials_as_true_or_false() {
    let mut cfg = policy("*", "*");
    cfg.allow_credentials = true;
    let mut res = ResponseBuilder::new(200).build();
    response_with_cors(&mut res, &cfg);
    assert_eq!(header(&res, "access-control-allow-credentials"), Some("true"));

    cfg.allow_credentials = false;
    let mut res = ResponseBuilder::new(200).build();
    response_with_cors(&mut res, &cfg);
    assert_eq!(header(&res, "access-control-allow-credentials"), Some("false"));
}

#[test]
fn decoration_states_max_age_in_decimal() {
    for (age, text) in [
        (0u32, "0"),
        (7, "7"),
        (10, "10"),
        (99, "99"),
        (100, "100"),
        (3600, "3600"),
        (86400, "86400"),
        (1000000007, "1000000007"),
        (u32::MAX, "4294967295"),
    ] {
        let mut cfg = policy("*", "*");
        cfg.max_age = Some(age);
        let mut res = ResponseBuilder::new(200).build();
        response_with_cors(&mut res, &cfg);
        assert_eq!(header(&res, "access-control-max-age"), Some(text));
    }
}

#[test]
fn decoration_keeps_status_body_and_other_headers() {
    let cfg = policy("http://a.com", "GET");
    let mut res = ResponseBuilder::new(404)
        .header("content-type", "text/plain")
        .header("access-control-allow-origin", "http://stale.example")
        .header("access-control-max-age", "5")
        .body("not here")
        .build();
    response_with_cors(&mut res, &cfg);
    assert_eq!(*res.status(), 404);
    assert_eq!(res.body(), b"not here");
    assert_eq!(header(&res, "content-type"), Some("text/plain"));
    assert_eq!(header(&res, "access-control-allow-origin"), Some("http://a.com"));
    assert_eq!(header(&res, "access-control-max-age"), Some("5"));
    assert_eq!(header_names(&res).len(), 6);
}

#[test]
fn decoration_returns_the_response_it_was_given() {
    let cfg = policy("http://a.com", "GET");
    let mut res = ResponseBuilder::new(201).body("made").build();
    let out = response_with_cors(&mut res, &cfg);
    assert_eq!(*out.status(), 201);
    assert_eq!(out.body(), b"made");
    assert_eq!(header(out, "access-control-allow-methods"), Some("GET"));
}

#[test]
fn decoration_does_not_look_at_the_policy_sentinels() {
    let mut res = ResponseBuilder::new(200).build();
    response_with_cors(&mut res, &policy(NO_ORIGINS, ""));
    assert_eq!(header(&res, "access-control-allow-origin"), Some("NULL"));
    assert_eq!(header(&res, "access-control-allow-methods"), Some(""));
}

#[test]
fn preflight_without_requested_method_gets_a_bare_204() {
    let cfg = policy("*", "*");
    let res = handle_preflight(&preflight(Some("http://a.com"), None), &cfg);
    assert_eq!(*res.status(), 204);
    assert!(res.body().is_empty());
    assert_eq!(header_names(&res), Vec::<String>::new());
}

#[test]
fn preflight_without_origin_gets_a_bare_204() {
    let cfg = policy("*", "*");
    let res = handle_preflight(&preflight(None, Some("GET")), &cfg);
    assert_eq!(*res.status(), 204);
    assert!(res.body().is_empty());
    assert_eq!(header_names(&res), Vec::<String>::new());

    let res = handle_preflight(&preflight(None, None), &cfg);
    assert_eq!(*res.status(), 204);
    assert_eq!(header_names(&res), Vec::<String>::new());
}

#[test]
fn preflight_with_empty_values_gets_a_bare_204() {
    let cfg = policy("*", "*");
    let res = handle_preflight(&preflight(Some(""), Some("GET")), &cfg);
    assert_eq!(*res.status(), 204);
    assert_eq!(header_names(&res), Vec::<String>::new());

    let res = handle_preflight(&preflight(Some("http://a.com"), Some("")), &cfg);
    assert_eq!(*res.status(), 204);
    assert_eq!(header_names(&res), Vec::<String>::new());
}

#[test]
fn preflight_with_a_value_that_is_no_text_gets_a_bare_204() {
    let cfg = policy("*", "*");
    let req = RequestBuilder::new(Method::Options, "/")
        .headers(vec![
            ("origin".to_string(), vec![0xff, 0xfe]),
            ("access-control-request-method".to_string(), b"GET".to_vec()),
        ])
        .build();
    let res = handle_preflight(&req, &cfg);
    assert_eq!(*res.status(), 204);
    assert_eq!(header_names(&res), Vec::<String>::new());
}

#[test]
fn allowed_preflight_is_granted_the_method_it_asked_for() {
    let cfg = policy("http://a.com,http://b.com", "GET,POST,DELETE");
    let res = handle_preflight(&preflight(Some("http://b.com"), Some("POST")), &cfg);
    assert_eq!(*res.status(), 204);
    assert!(res.body().is_empty());
    assert_eq!(header(&res, "access-control-allow-origin"), Some("http://b.com"));
    assert_eq!(header(&res, "access-control-allow-methods"), Some("POST"));
    assert_eq!(
        header(&res, "access-control-allow-headers"),
        Some("content-type,x-token")
    );
    assert_eq!(header(&res, "access-control-allow-credentials"), Some("false"));
    assert_eq!(header(&res, "access-control-max-age"), None);
    assert_eq!(header_names(&res).len(), 4);
}

#[test]
fn allowed_preflight_under_wildcards_echoes_origin_and_method() {
    let mut cfg = policy(ALL_ORIGINS, ALL_METHODS);
    cfg.allow_credentials = true;
    cfg.max_age = Some(600);
    let res = handle_preflight(&preflight(Some("https://x.example"), Some("PATCH")), &cfg);
    assert_eq!(*res.status(), 204);
    assert_eq!(
        header(&res, "access-control-allow-origin"),
        Some("https://x.example")
    );
    assert_eq!(header(&res, "access-control-allow-methods"), Some("PATCH"));
    assert_eq!(header(&res, "access-control-allow-credentials"), Some("true"));
    assert_eq!(header(&res, "access-control-max-age"), Some("600"));
    assert_eq!(header_names(&res).len(), 5);
}

#[test]
fn preflight_reads_headers_whatever_the_case_they_were_built_with() {
    let cfg = policy(ALL_ORIGINS, ALL_METHODS);
    let req = RequestBuilder::new(Method::Options, "/")
        .header("Origin", "http://a.com")
        .header("Access-Control-Request-Method", "PUT")
        .build();
    let res = handle_preflight(&req, &cfg);
    assert_eq!(header(&res, "access-control-allow-origin"), Some("http://a.com"));
    assert_eq!(header(&res, "access-control-allow-methods"), Some("PUT"));
}

#[test]
fn denied_preflight_gets_a_bare_204() {
    let cfg = policy("http://a.com", "GET");
    let res = handle_preflight(&preflight(Some("http://evil.example"), Some("GET")), &cfg);
    assert_eq!(*res.status(), 204);
    assert!(res.body().is_empty());
    assert_eq!(header_names(&res), Vec::<String>::new());

    let res = handle_preflight(&preflight(Some("http://a.com"), Some("DELETE")), &cfg);
    assert_eq!(*res.status(), 204);
    assert_eq!(header_names(&res), Vec::<String>::new());

    let res = handle_preflight(&preflight(Some("http://a.com"), Some("GET")), &policy("", "GET"));
    assert_eq!(header_names(&res), Vec::<String>::new());

    let res = handle_preflight(
        &preflight(Some("http://a.com"), Some("GET")),
        &policy(NO_ORIGINS, "GET"),
    );
    assert_eq!(header_names(&res), Vec::<String>::new());

    let res = handle_preflight(&preflight(Some("http://a.com"), Some("GET")), &policy("*", ""));
    assert_eq!(header_names(&res), Vec::<String>::new());
}

#[test]
fn preflight_does_not_look_at_the_method_of_the_request() {
    let cfg = policy(ALL_ORIGINS, ALL_METHODS);
    let mut req = Request::new(Method::Get, "/");
    req.set_header("origin", "http://a.com");
    req.set_header("access-control-request-method", "GET");
    let res = handle_preflight(&req, &cfg);
    assert_eq!(*res.status(), 204);
    assert_eq!(header(&res, "access-control-allow-methods"), Some("GET"));
}

#[test]
fn two_answers_to_one_preflight_are_the_same() {
    let mut cfg = policy("http://a.com,http://b.com", "GET,POST");
    cfg.max_age = Some(30);
    let req = preflight(Some("http://a.com"), Some("POST"));
    let first = handle_preflight(&req, &cfg);
    let second = handle_preflight(&req, &cfg);
    assert_eq!(first.status(), second.status());
    assert_eq!(first.body(), second.body());
    assert_eq!(header_names(&first), header_names(&second));
    for name in header_names(&first) {
        assert_eq!(header(&first, &name), header(&second, &name));
    }
}
