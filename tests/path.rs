use myth::basic::any;
use myth::body::BytesBuf;
use myth::errors::{FilterError, Recoverable};
use myth::filter::{AsyncTryFn, Filter};
use myth::forward::{Forwarding, Method};
use myth::outcome::{Outcome, RequestOutcome};
use myth::path::{end, literal, param, param_str, sanitize_path, tail, tail_path};
use myth::request::{Request, RequestState};
use myth::values::{Tuple, Value};

enum H {
    Reply(&'static str),
    Panic,
}

impl AsyncTryFn for H {
    fn call(&self, _args: Tuple) -> Result<Value, FilterError> {
        match self {
            H::Reply(s) => Ok(Value::Text((*s).to_owned())),
            H::Panic => panic!(),
        }
    }

    fn recover(&self, error: FilterError) -> Result<Value, FilterError> {
        Err(error)
    }

    fn recover_forward(&self, error: FilterError) -> Result<Forwarding, FilterError> {
        Err(error)
    }
}

fn run(filter: &Filter<H>, method: Method, path: &str) -> RequestOutcome {
    let request = Request::new(method, path.as_bytes().to_vec(), vec![]).unwrap();
    let state = RequestState::new(BytesBuf::new(vec![]));
    filter.execute(&request, state, Tuple::new())
}

fn succeeds(filter: &Filter<H>, path: &str) -> Tuple {
    match run(filter, Method::Get, path).outcome {
        Outcome::Success(t) => t,
        other => panic!("expected success, got {:?}", other),
    }
}

fn components(parts: &[&str]) -> Vec<Vec<u8>> {
    parts.iter().map(|p| p.as_bytes().to_vec()).collect()
}

#[test]
fn path_sanitization() {
    // ../aaa
    assert!(sanitize_path(b"../aaa").is_none());
    assert!(sanitize_path(b"%2e%2e%2faaa").is_none());
    // ../../aaa
    assert!(sanitize_path(b"%2e%2e%2f%2e%2e%2faaa").is_none());
    assert!(sanitize_path(b"..\\").is_none());
    assert!(sanitize_path(b"./.env").is_none());
    assert!(sanitize_path(b"/./.env").is_none());
    assert!(sanitize_path(b"/./..env").is_none());
    assert!(sanitize_path(b"./../.").is_none());
    assert!(sanitize_path(b"/etc/passwd%00.png").is_none());
    assert!(sanitize_path(b"/../aaa.html").is_none());
    assert!(sanitize_path(b"/C:\\/aaa.html").is_none());
    assert!(sanitize_path(b"C:\\\\//").is_none());
    assert!(sanitize_path(b"\\\\//").is_none());
    assert!(sanitize_path(b"\\").is_none());
    assert!(sanitize_path(b"e/**/").is_none());
    assert!(sanitize_path(b"/*y/").is_none());
    assert!(sanitize_path(b"*/.").is_none());
    assert!(sanitize_path(b"/.:").is_none());
    assert!(sanitize_path(b"/aa/eeeee:").is_none());
    assert!(sanitize_path(b"a/:").is_none());
    assert!(sanitize_path(b"a/::").is_none());
    assert!(sanitize_path(b"a/<>").is_none());
    assert!(sanitize_path(b"./g>").is_none());
    assert!(sanitize_path(b"//<").is_none());
    assert!(sanitize_path(b"/eeeee\0ee.txt").is_none());
    assert!(sanitize_path(b"/././/./").is_none());

    assert_eq!(sanitize_path(b"//").unwrap(), components(&[]));
    assert_eq!(sanitize_path(b"///").unwrap(), components(&[]));
    assert_eq!(sanitize_path(b"/%2F/").unwrap(), components(&[]));
    assert_eq!(sanitize_path(b"/example.html").unwrap(), components(&["example.html"]));
    assert_eq!(sanitize_path(b"/").unwrap(), components(&[]));
}

#[test]
fn sanitize_keeps_nested_components_and_rejects_bad_utf8() {
    assert_eq!(sanitize_path(b"/a/%62/c.txt").unwrap(), components(&["a", "b", "c.txt"]));
    assert!(sanitize_path(b"/a/%ff").is_none());
}

#[test]
fn root_end() {
    succeeds(&end(), "/");
}

#[test]
fn empty_end() {
    succeeds(&end(), "");
    let filter = literal("h").and(end()).handle(H::Panic).untuple().or(end());
    succeeds(&filter, "");
}

#[test]
fn basic_literal() {
    let filter: Filter<H> = literal("a");
    succeeds(&filter, "/a");
    succeeds(&filter, "/a/foo");
    let filter: Filter<H> = literal("XYZ").and(end());
    match run(&filter, Method::Put, "/XYZ").outcome {
        Outcome::Success(t) => assert_eq!(t.len(), 0),
        other => panic!("unexpected {:?}", other),
    }
}

#[test]
fn literal_is_case_sensitive_and_decoded() {
    let filter: Filter<H> = literal("a b");
    succeeds(&filter, "/a%20b");
    let filter: Filter<H> = literal("abc");
    assert!(matches!(run(&filter, Method::Get, "/ABC").outcome, Outcome::Forward { forwarding: Forwarding::NotFound, .. }));
    let filter: Filter<H> = literal("a");
    assert!(matches!(run(&filter, Method::Get, "/a%2Fb").outcome, Outcome::Forward { .. }));
}

#[test]
fn number_param() {
    let filter: Filter<H> = literal("foo").and(param()).and(literal("bar")).and(end());
    let t = succeeds(&filter, "/foo/2345/bar");
    assert!(matches!(t.into_inner(), Value::Int(2345)));

    let filter: Filter<H> = literal("a").and(param()).and(end());
    let t = succeeds(&filter, "/a/2345");
    assert!(matches!(t.into_inner(), Value::Int(2345)));
}

#[test]
fn path_routing_with_param() {
    let filter: Filter<H> = literal("a").and(param()).and(literal("bar")).and(end());
    let t = succeeds(&filter, "/a/2345/bar");
    assert!(matches!(t.into_inner(), Value::Int(2345)));
    let out = run(&filter, Method::Get, "/a/2345x/bar");
    assert!(matches!(out.outcome, Outcome::Forward { forwarding: Forwarding::NotFound, .. }));
    // the parameter step consumed "/2345x" before forwarding
    assert_eq!(out.request_state.current_path_index, 8);
}

#[test]
fn utf8_param_str() {
    let filter: Filter<H> = param_str().and(end());
    let t = succeeds(&filter, "/%CE%B3%CE%B5%CE%B9%CE%B1%20%CF%83%CE%B1%CF%82");
    match t.into_inner() {
        Value::Text(s) => assert_eq!(s, "γεια σας"),
        other => panic!("unexpected {:?}", other),
    }
}

#[test]
fn param_str_replaces_invalid_utf8() {
    let filter: Filter<H> = param_str();
    match succeeds(&filter, "/a%FFb").into_inner() {
        Value::Text(s) => assert_eq!(s, "a\u{FFFD}b"),
        other => panic!("unexpected {:?}", other),
    }
}

#[test]
fn asterik() {
    let filter: Filter<H> = literal("*").and(end());
    succeeds(&filter, "*");
}

#[test]
fn redirect() {
    let filter: Filter<H> = literal("hhhhhhh").and(end());
    match run(&filter, Method::Get, "/hhhhhhh/").outcome {
        Outcome::Error(FilterError::Redirect(redirect)) => assert_eq!(redirect.location(), b"/hhhhhhh"),
        other => panic!("unexpected {:?}", other),
    }
}

#[test]
fn trailing_slash_redirect_is_not_swallowed() {
    let filter: Filter<H> = literal("foo").and(end()).or(any());
    match run(&filter, Method::Get, "/foo/").outcome {
        Outcome::Error(e) => {
            assert_eq!(e.kind(), Recoverable::Redirect);
            let response = e.into_response();
            assert_eq!(response.status, 308);
            assert_eq!(response.headers.last(), Some(&(b"location".to_vec(), b"/foo".to_vec())));
        },
        other => panic!("unexpected {:?}", other),
    }
}

#[test]
fn tails() {
    let filter: Filter<H> = literal("static").and(tail());
    match succeeds(&filter, "/static/a/b.css").into_inner() {
        Value::Bytes(b) => assert_eq!(b, b"/a/b.css"),
        other => panic!("unexpected {:?}", other),
    }
    let filter: Filter<H> = literal("static").and(tail_path());
    match succeeds(&filter, "/static/a/b.css").into_inner() {
        Value::Path(p) => assert_eq!(p, components(&["a", "b.css"])),
        other => panic!("unexpected {:?}", other),
    }
    let out = run(&filter, Method::Get, "/static/../secret");
    assert!(matches!(out.outcome, Outcome::Forward { forwarding: Forwarding::NotFound, .. }));
    assert_eq!(out.request_state.current_path_index, 7);
}
