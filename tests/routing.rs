use myth::basic::{any, borrowing, never};
use myth::body::BytesBuf;
use myth::errors::{FilterError, Recoverable};
use myth::filter::{AsyncTryFn, Filter};
use myth::forward::{AttemptedMethods, Forwarding, Method};
use myth::method;
use myth::outcome::{Outcome, RequestOutcome};
use myth::path::{end, literal, param};
use myth::request::{Request, RequestState};
use myth::server::Server;
use myth::values::{Tuple, Value};

const NOT_A_NUMBER: u64 = 10;
const TEAPOT: u64 = 11;

enum H {
    Reply(&'static str),
    Fail(u64),
    Recovered(i64),
    Forward,
    Echo,
    Respond,
}

impl AsyncTryFn for H {
    fn call(&self, args: Tuple) -> Result<Value, FilterError> {
        match self {
            H::Reply(s) => Ok(Value::Text((*s).to_owned())),
            H::Fail(tag) => Err(FilterError::Custom { tag: *tag, payload: Value::Int(0) }),
            H::Echo => Ok(Value::List(args)),
            H::Respond => Ok(Value::Response(myth::response::Response::with_status(201))),
            _ => unreachable!(),
        }
    }

    fn recover(&self, error: FilterError) -> Result<Value, FilterError> {
        match self {
            H::Recovered(n) => Ok(Value::Int(*n)),
            _ => Err(error),
        }
    }

    fn recover_forward(&self, error: FilterError) -> Result<Forwarding, FilterError> {
        match self {
            H::Forward => Ok(Forwarding::NotFound),
            _ => Err(error),
        }
    }
}

fn run(filter: &Filter<H>, method: Method, path: &str) -> RequestOutcome {
    let request = Request::new(method, path.as_bytes().to_vec(), vec![]).unwrap();
    let state = RequestState::new(BytesBuf::new(vec![]));
    filter.execute(&request, state, Tuple::new())
}

fn text(outcome: Outcome) -> String {
    match outcome {
        Outcome::Success(t) => match t.into_inner() {
            Value::Text(s) => s,
            other => panic!("unexpected {:?}", other),
        },
        other => panic!("unexpected {:?}", other),
    }
}

#[test]
fn simple_routes() {
    let filter = literal("foo").handle(H::Reply("foo")).or(end().handle(H::Reply("end")));
    assert_eq!(text(run(&filter, Method::Get, "/").outcome), "end");
    assert_eq!(text(run(&filter, Method::Post, "/foo").outcome), "foo");
}

#[test]
fn multiple_literals() {
    let filter = literal("foo")
        .and(literal("bar"))
        .handle(H::Reply("foo"))
        .or(end().handle(H::Reply("end")));
    assert_eq!(text(run(&filter, Method::Put, "/foo/bar").outcome), "foo");
}

#[test]
fn alternative_resets_the_cursor() {
    // the first branch consumes "/foo" and then forwards
    let filter = literal("foo")
        .and(literal("bar"))
        .handle(H::Reply("first"))
        .or(literal("foo").and(literal("baz")).handle(H::Reply("second")));
    assert_eq!(text(run(&filter, Method::Get, "/foo/baz").outcome), "second");
    let out = run(&filter, Method::Get, "/foo/qux");
    assert!(matches!(out.outcome, Outcome::Forward { forwarding: Forwarding::NotFound, .. }));
    assert_eq!(out.request_state.current_path_index, 0);
}

#[test]
fn methods_not_allowed_combine() {
    let filter = method::get::<H>().or(method::post()).or(method::delete());
    match run(&filter, Method::Put, "/").outcome {
        Outcome::Forward { forwarding, .. } => {
            assert_eq!(forwarding, Forwarding::MethodNotAllowed(AttemptedMethods(1 | 2 | 8)));
        },
        other => panic!("unexpected {:?}", other),
    }
    let filter = never::<H>().or(method::get());
    match run(&filter, Method::Put, "/").outcome {
        Outcome::Forward { forwarding, .. } => {
            assert_eq!(forwarding, Forwarding::MethodNotAllowed(AttemptedMethods::of(Method::Get)));
        },
        other => panic!("unexpected {:?}", other),
    }
    assert!(matches!(run(&filter, Method::Get, "/").outcome, Outcome::Success(_)));
}

#[test]
fn error_is_not_retried_by_alternative() {
    let filter = any::<H>().handle(H::Fail(TEAPOT)).or(any().handle(H::Reply("never")));
    match run(&filter, Method::Get, "/").outcome {
        Outcome::Error(e) => assert_eq!(e.kind(), Recoverable::Custom(TEAPOT)),
        other => panic!("unexpected {:?}", other),
    }
}

#[test]
fn nested_recoveries_are_exact() {
    // the inner recovery names another type, so the outer one gets the error
    let failing = literal("x").handle(H::Fail(TEAPOT));
    let filter = failing
        .recover(Recoverable::Custom(NOT_A_NUMBER), H::Recovered(1))
        .recover(Recoverable::Redirect, H::Recovered(2))
        .recover(Recoverable::Custom(TEAPOT), H::Recovered(3));
    let out = run(&filter, Method::Get, "/x");
    assert!(matches!(out.outcome, Outcome::Success(ref t) if matches!(t.items[0], Value::Int(3))));
    // a successful recovery puts the cursor back
    assert_eq!(out.request_state.current_path_index, 0);

    let failing = any::<H>().handle(H::Fail(TEAPOT));
    let filter = failing.recover(Recoverable::Custom(NOT_A_NUMBER), H::Recovered(1));
    match run(&filter, Method::Get, "/").outcome {
        Outcome::Error(e) => assert_eq!(e.kind(), Recoverable::Custom(TEAPOT)),
        other => panic!("unexpected {:?}", other),
    }

    let failing = any::<H>().handle(H::Fail(TEAPOT));
    let filter = failing.recover(Recoverable::Any, H::Recovered(9));
    assert!(matches!(run(&filter, Method::Get, "/").outcome, Outcome::Success(ref t) if matches!(t.items[0], Value::Int(9))));
}

#[test]
fn recover_forward_rejoins_alternatives() {
    let filter = any::<H>()
        .handle(H::Fail(NOT_A_NUMBER))
        .recover_forward(Recoverable::Custom(NOT_A_NUMBER), H::Forward)
        .or(any().handle(H::Reply("fallback")));
    assert_eq!(text(run(&filter, Method::Get, "/").outcome), "fallback");
}

#[test]
fn then_and_receive_thread_values() {
    // `then`: the input comes first, then the first filter's success
    let filter = param::<H>().then(any().handle(H::Echo)).receive(0);
    let request = Request::new(Method::Get, b"/42".to_vec(), vec![]).unwrap();
    let state = RequestState::new(BytesBuf::new(vec![]));
    let out = filter.execute(&request, state, Tuple::one(Value::Bool(true)));
    match out.outcome {
        Outcome::Success(t) => {
            assert_eq!(t.len(), 1);
            assert!(matches!(t.items[0], Value::List(_)));
        },
        other => panic!("unexpected {:?}", other),
    }

    // `receive`: the received values come back in front of the success
    let filter = param::<H>().receive(1);
    let request = Request::new(Method::Get, b"/42".to_vec(), vec![]).unwrap();
    let state = RequestState::new(BytesBuf::new(vec![]));
    let out = filter.execute(&request, state, Tuple::one(Value::Bool(true)));
    match out.outcome {
        Outcome::Success(t) => {
            assert_eq!(t.len(), 2);
            assert!(matches!(t.items[0], Value::Bool(true)));
            assert!(matches!(t.items[1], Value::Int(42)));
        },
        other => panic!("unexpected {:?}", other),
    }

    // on a forward the input comes back untouched
    let filter = literal::<H>("nope").then(any());
    let request = Request::new(Method::Get, b"/42".to_vec(), vec![]).unwrap();
    let state = RequestState::new(BytesBuf::new(vec![]));
    let out = filter.execute(&request, state, Tuple::one(Value::Int(5)));
    match out.outcome {
        Outcome::Forward { input, .. } => {
            assert_eq!(input.len(), 1);
            assert!(matches!(input.items[0], Value::Int(5)));
        },
        other => panic!("unexpected {:?}", other),
    }
}

#[test]
fn untuple_flattens_one_level() {
    let filter = param::<H>().and(param()).handle(H::Echo).untuple();
    match run(&filter, Method::Get, "/1/2").outcome {
        Outcome::Success(t) => {
            assert_eq!(t.len(), 2);
            assert!(matches!(t.items[0], Value::Int(1)));
            assert!(matches!(t.items[1], Value::Int(2)));
        },
        other => panic!("unexpected {:?}", other),
    }
}

#[test]
fn borrowing_copies_its_value() {
    let filter = borrowing::<H>(Value::Text("hello".to_owned()));
    assert_eq!(text(run(&filter, Method::Get, "/").outcome), "hello");
    assert_eq!(text(run(&filter, Method::Post, "/").outcome), "hello");
}

#[test]
fn server_responses() {
    let server = Server::new(
        literal("hi").and(end()).handle(H::Reply("Hello world!"))
            .or(literal("made").handle(H::Respond))
            .or(literal::<H>("foo").and(end()).handle(H::Reply("foo"))),
    );
    let respond = |m: Method, p: &str| {
        let request = Request::new(m, p.as_bytes().to_vec(), vec![]).unwrap();
        myth::response::outcome_response(server.evaluate(&request, RequestState::new(BytesBuf::new(vec![]))).1)
    };
    let r = respond(Method::Get, "/hi");
    assert_eq!(r.status, 200);
    assert_eq!(r.body, b"Hello world!");
    assert_eq!(r.headers, vec![(b"content-type".to_vec(), b"text/plain; charset=utf-8".to_vec())]);
    assert_eq!(respond(Method::Get, "/made").status, 201);
    assert_eq!(respond(Method::Get, "/nothing").status, 404);
    let r = respond(Method::Get, "/foo/");
    assert_eq!(r.status, 308);
    assert_eq!(r.headers.last(), Some(&(b"location".to_vec(), b"/foo".to_vec())));
}

#[test]
fn dynamic_filter_behaves_as_its_filter() {
    let filter = literal::<H>("foo").handle(H::Reply("foo")).dynamic().or(end().handle(H::Reply("end")));
    assert_eq!(text(run(&filter, Method::Get, "/foo").outcome), "foo");
    assert_eq!(text(run(&filter, Method::Get, "/").outcome), "end");
}

#[test]
fn request_facts() {
    let request = Request::new(
        Method::Patch,
        b"/hello/foo//e/////h/aaa".to_vec(),
        vec![(b"User-Agent".to_vec(), b"User".to_vec())],
    )
    .unwrap();
    let run_on = |filter: Filter<H>| {
        filter.execute(&request, RequestState::new(BytesBuf::new(vec![])), Tuple::new()).outcome
    };
    assert!(matches!(run_on(method::method()), Outcome::Success(t) if matches!(t.items[0], Value::Method(Method::Patch))));
    match run_on(myth::path::path()) {
        Outcome::Success(t) => assert!(matches!(&t.items[0], Value::Bytes(b) if b == b"/hello/foo//e/////h/aaa")),
        other => panic!("unexpected {:?}", other),
    }
    match run_on(myth::header::value("user-agent")) {
        Outcome::Success(t) => assert!(matches!(&t.items[0], Value::Bytes(b) if b == b"User")),
        other => panic!("unexpected {:?}", other),
    }
    assert!(matches!(run_on(myth::header::value("Accept")), Outcome::Forward { forwarding: Forwarding::NotFound, .. }));
}

#[test]
fn security_headers_on_responses() {
    let config = myth::security::hsts::Config { max_age: 60, directives: myth::security::hsts::Directives::Plain };
    let filter = any::<H>()
        .handle(H::Respond)
        .then(myth::security::x_content_type_options())
        .then(myth::security::hsts::hsts(config));
    match run(&filter, Method::Get, "/").outcome {
        Outcome::Success(t) => match t.into_inner() {
            Value::Response(r) => {
                assert_eq!(r.status, 201);
                assert_eq!(
                    r.headers,
                    vec![
                        (b"x-content-type-options".to_vec(), b"nosniff".to_vec()),
                        (b"strict-transport-security".to_vec(), b"max-age=60".to_vec()),
                    ]
                );
            },
            other => panic!("unexpected {:?}", other),
        },
        other => panic!("unexpected {:?}", other),
    }
    let page = myth::response::html(Value::Text("<h1>Hi</h1>".to_owned()));
    assert_eq!(page.headers, vec![(b"content-type".to_vec(), b"text/html; charset=utf-8".to_vec())]);
    assert_eq!(page.body, b"<h1>Hi</h1>");
}
