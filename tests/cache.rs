use myth::body::BytesBuf;
use myth::cache::if_unmodified_since;
use myth::errors::FilterError;
use myth::filter::{AsyncTryFn, Filter};
use myth::forward::{Forwarding, Method};
use myth::outcome::Outcome;
use myth::request::{Request, RequestState};
use myth::values::{Tuple, Value};

struct NoHandlers;

impl AsyncTryFn for NoHandlers {
    fn call(&self, _args: Tuple) -> Result<Value, FilterError> {
        unreachable!()
    }

    fn recover(&self, _error: FilterError) -> Result<Value, FilterError> {
        unreachable!()
    }

    fn recover_forward(&self, _error: FilterError) -> Result<Forwarding, FilterError> {
        unreachable!()
    }
}

// Fri, 15 May 2015 15:34:21 GMT
const DATE: u64 = 1431704061;

fn run(method: Method, header: Option<&str>, modified: u64) -> Outcome {
    let filter: Filter<NoHandlers> = if_unmodified_since();
    let headers = header
        .map(|v| vec![(b"If-Modified-Since".to_vec(), v.as_bytes().to_vec())])
        .unwrap_or_default();
    let request = Request::new(method, b"/".to_vec(), headers).unwrap();
    let state = RequestState::new(BytesBuf::new(vec![]));
    filter.execute(&request, state, Tuple::one(Value::Time(modified))).outcome
}

#[test]
fn fresh_copy_is_not_modified() {
    match run(Method::Get, Some("Fri, 15 May 2015 15:34:21 GMT"), DATE - 1) {
        Outcome::Success(t) => match t.into_inner() {
            Value::Response(r) => {
                assert_eq!(r.status, 304);
                assert!(r.body.is_empty());
            },
            other => panic!("unexpected {:?}", other),
        },
        other => panic!("unexpected {:?}", other),
    }
}

#[test]
fn stale_or_absent_copy_forwards_with_its_input() {
    for outcome in [
        run(Method::Head, Some("Fri, 15 May 2015 15:34:21 GMT"), DATE),
        run(Method::Get, None, DATE),
        run(Method::Post, Some("Fri, 15 May 2015 15:34:21 GMT"), 0),
    ] {
        match outcome {
            Outcome::Forward { input, forwarding } => {
                assert_eq!(forwarding, Forwarding::NotFound);
                assert_eq!(input.len(), 1);
                assert!(matches!(input.items[0], Value::Time(_)));
            },
            other => panic!("unexpected {:?}", other),
        }
    }
}

#[test]
fn unreadable_date_is_an_error() {
    match run(Method::Get, Some("yesterday"), DATE) {
        Outcome::Error(FilterError::InvalidIfUnmodifiedSince { value }) => assert_eq!(value, b"yesterday"),
        other => panic!("unexpected {:?}", other),
    }
    let r = FilterError::InvalidIfUnmodifiedSince { value: vec![] }.into_response();
    assert_eq!(r.status, 400);
}
