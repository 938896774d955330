use myth::basic::any;
use myth::body::BytesBuf;
use myth::errors::FilterError;
use myth::filter::{AsyncTryFn, Filter};
use myth::forward::{Forwarding, Method};
use myth::request::{Request, RequestState};
use myth::response::Response;
use myth::security::hsts;
use myth::security::origin::Config;
use myth::server::Server;
use myth::values::{Tuple, Value};

struct Success;

impl AsyncTryFn for Success {
    fn call(&self, _args: Tuple) -> Result<Value, FilterError> {
        Ok(Value::Text("Success".to_owned()))
    }

    fn recover(&self, error: FilterError) -> Result<Value, FilterError> {
        Err(error)
    }

    fn recover_forward(&self, error: FilterError) -> Result<Forwarding, FilterError> {
        Err(error)
    }
}

fn creates_response() -> Filter<Success> {
    any().handle(Success)
}

fn simple_with_origin() -> Filter<Success> {
    Config::new()
        .method(Method::Get)
        .method(Method::Post)
        .origin("https://example.com")
        .apply(creates_response())
}

fn respond(filter: Filter<Success>, method: Method, headers: &[(&str, &str)]) -> Response {
    let headers = headers.iter().map(|(n, v)| (n.as_bytes().to_vec(), v.as_bytes().to_vec())).collect();
    let request = Request::new(method, b"/".to_vec(), headers).unwrap();
    myth::response::outcome_response(Server::new(filter).evaluate(&request, RequestState::new(BytesBuf::new(vec![]))).1)
}

fn values(response: &Response, name: &str) -> Vec<String> {
    response
        .headers
        .iter()
        .filter(|(n, _)| n.eq_ignore_ascii_case(name.as_bytes()))
        .map(|(_, v)| String::from_utf8(v.clone()).unwrap())
        .collect()
}

#[test]
fn not_cors() {
    let response = respond(simple_with_origin(), Method::Patch, &[]);
    assert_eq!(response.status, 200);
    assert_eq!(response.body, b"Success");
    let response = respond(simple_with_origin(), Method::Options, &[("Referrer", "http://localhost")]);
    assert_eq!(response.status, 200);
    assert_eq!(response.body, b"Success");
}

fn assert_forbidden_normal(response: &Response) {
    assert_eq!(response.status, 403);
    assert_eq!(response.body, b"Forbidden");
    let vary = values(response, "Vary");
    assert_eq!(vary.len(), 1);
    assert!(vary[0].eq_ignore_ascii_case("Origin"));
}

#[test]
fn forbid_origin() {
    let response = respond(
        simple_with_origin(),
        Method::Get,
        &[("Origin", "http://localhost"), ("Host", "https://example.com"), ("Cookie", "token=5")],
    );
    assert_forbidden_normal(&response);
    let response = respond(simple_with_origin(), Method::Get, &[("Origin", "null"), ("Referrer", "null")]);
    assert_forbidden_normal(&response);
}

#[test]
fn forbid_method_normal() {
    let response = respond(simple_with_origin(), Method::Delete, &[("Origin", "http://example.com")]);
    assert_forbidden_normal(&response);
}

#[test]
fn allowed_origin_gets_headers() {
    let response = respond(simple_with_origin(), Method::Post, &[("Origin", "https://example.com")]);
    assert_eq!(response.status, 200);
    assert_eq!(response.body, b"Success");
    assert_eq!(values(&response, "Access-Control-Allow-Origin"), vec!["https://example.com"]);
    assert_eq!(values(&response, "Vary"), vec!["origin"]);
}

fn assert_vary(response: &Response) {
    let vary = values(response, "Vary");
    assert_eq!(vary.len(), 1);
    assert_eq!(vary[0], "Origin, Access-Control-Request-Method, Access-Control-Request-Headers");
}

#[test]
fn preflight_origin() {
    let filter = || {
        Config::new()
            .method(Method::Put)
            .origin("http://example.org")
            .origin("https://example.org")
            .origin("https://example.com")
            .apply(creates_response())
    };
    let response = respond(
        filter(),
        Method::Options,
        &[("Origin", "http://example.org"), ("Access-Control-Request-Method", "PUT")],
    );
    assert_eq!(response.status, 204);
    assert!(response.body.is_empty());
    assert_vary(&response);

    let response = respond(
        filter(),
        Method::Options,
        &[("Origin", "http://0.0.0.0:80"), ("Access-Control-Request-Method", "PUT")],
    );
    assert_eq!(response.status, 403);
    assert!(response.body.is_empty());
    assert_vary(&response);
}

#[test]
fn preflight_method_and_headers() {
    let filter = || {
        Config::new()
            .method(Method::Patch)
            .method(Method::Put)
            .origin("https://example.com:12345")
            .allow_header("Content-Type")
            .allow_header("X-Custom-Header")
            .apply(creates_response())
    };

    let response = respond(
        filter(),
        Method::Options,
        &[
            ("Origin", "https://example.com:12345"),
            ("Access-Control-Request-Method", "PUT"),
            ("Access-Control-Request-Headers", "X-Custom-Header"),
        ],
    );
    assert_eq!(response.status, 204);
    assert!(response.body.is_empty());
    assert_vary(&response);
    assert_eq!(values(&response, "Access-Control-Allow-Headers"), vec!["content-type, x-custom-header"]);
    assert_eq!(values(&response, "Access-Control-Allow-Methods"), vec!["PATCH, PUT"]);

    let response = respond(
        filter(),
        Method::Options,
        &[
            ("Origin", "https://example.com:12345"),
            ("Access-Control-Request-Method", "GET"),
            ("Access-Control-Request-Headers", "X-Custom-Header"),
        ],
    );
    assert_eq!(response.status, 403);

    let response = respond(
        filter(),
        Method::Options,
        &[
            ("Origin", "https://example.com:12345"),
            ("Access-Control-Request-Method", "PATCH"),
            ("Access-Control-Request-Headers", "X-Custom-Header, X-Other-Custom-Header"),
        ],
    );
    assert_eq!(response.status, 403);
}

#[test]
fn preflight_without_request_method_is_bad() {
    let filter = Config::new().method(Method::Get).any_origin().apply(creates_response());
    let response = respond(filter, Method::Options, &[("Origin", "http://example.org")]);
    assert_eq!(response.status, 400);
}

#[test]
fn simple_successful_preflight_any_origin() {
    let filter = Config::new().method(Method::Delete).any_origin().apply(creates_response());
    let response = respond(
        filter,
        Method::Options,
        &[("Origin", "http://example.org"), ("Access-Control-Request-Method", "DELETE")],
    );
    assert_eq!(response.status, 204);
    assert!(response.body.is_empty());
    let vary = values(&response, "Vary");
    assert_eq!(vary.len(), 1);
    assert_eq!(vary[0], "Access-Control-Request-Method, Access-Control-Request-Headers");
    assert_eq!(values(&response, "Access-Control-Allow-Origin"), vec!["*"]);
}

#[test]
fn preflight_headers_list_everything() {
    let config = Config::new()
        .method(Method::Get)
        .method(Method::Get)
        .origin("https://example.com")
        .expose_header("X-Custom-Header")
        .expose_header("x-custom-header")
        .credentials()
        .max_age(3600);
    let headers: Vec<(String, String)> = config
        .preflight_headers()
        .into_iter()
        .map(|(n, v)| (String::from_utf8(n).unwrap(), String::from_utf8(v).unwrap()))
        .collect();
    let expected: Vec<(String, String)> = vec![
        ("vary", "Origin, Access-Control-Request-Method, Access-Control-Request-Headers"),
        ("access-control-allow-methods", "GET"),
        ("access-control-expose-headers", "x-custom-header"),
        ("access-control-allow-credentials", "true"),
        ("access-control-max-age", "3600"),
    ]
    .into_iter()
    .map(|(n, v)| (n.to_owned(), v.to_owned()))
    .collect();
    assert_eq!(headers, expected);
}

#[test]
fn hsts_header_values() {
    let c = hsts::Config { max_age: 31536000, directives: hsts::Directives::Preload };
    assert_eq!(c.header_value(), b"max-age=31536000; includeSubDomains; preload".to_vec());
    let c = hsts::Config { max_age: 0, directives: hsts::Directives::Plain };
    assert_eq!(c.header_value(), b"max-age=0".to_vec());
    let c = hsts::Config { max_age: 60, directives: hsts::Directives::IncludeSubDomains };
    assert_eq!(c.header_value(), b"max-age=60; includeSubDomains".to_vec());
}
