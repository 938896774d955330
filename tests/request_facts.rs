use myth::body::BytesBuf;
use myth::errors::FilterError;
use myth::filter::{AsyncTryFn, Filter};
use myth::forward::{Forwarding, Method};
use myth::outcome::Outcome;
use myth::request::{IpAddr, RemoteAddr, Request, RequestState, Version};
use myth::values::{Tuple, Value};

struct NoHandlers;

impl AsyncTryFn for NoHandlers {
    fn call(&self, _args: Tuple) -> Result<Value, FilterError> {
        unreachable!()
    }

    fn recover(&self, _error: FilterError) -> Result<Value, FilterError> {
        unreachable!()
    }

    fn recover_forward(&self, _error: FilterError) -> Result<Forwarding, FilterError> {
        unreachable!()
    }
}

fn get() -> Request {
    Request::new(Method::Get, b"/".to_vec(), vec![]).unwrap()
}

fn success(filter: Filter<NoHandlers>, request: &Request) -> Value {
    match filter.execute(request, RequestState::new(BytesBuf::new(vec![])), Tuple::new()).outcome {
        Outcome::Success(t) => t.into_inner(),
        other => panic!("expected success, got {:?}", other),
    }
}

#[test]
fn any_always_succeeds() {
    match myth::any::<NoHandlers>().execute(&get(), RequestState::new(BytesBuf::new(vec![])), Tuple::new()).outcome {
        Outcome::Success(t) => assert_eq!(t.len(), 0),
        other => panic!("unexpected {:?}", other),
    }
}

#[test]
fn cloning_arc() {
    let filter = myth::cloning(Value::Text("hello".to_owned()));
    let request = Request::new(Method::Post, b"/".to_vec(), vec![]).unwrap();
    assert!(matches!(success(filter, &request), Value::Text(s) if s == "hello"));
}

#[test]
fn cloning_u64() {
    let filter = myth::cloning(Value::Int(54321));
    let request = Request::new(Method::Delete, b"/".to_vec(), vec![]).unwrap();
    assert!(matches!(success(filter, &request), Value::Int(54321)));
}

#[test]
fn extract_remote_addr() {
    let addr = RemoteAddr { ip: IpAddr::V4(0x7f00_0001), port: 12345 };
    let request = get().with_remote_addr(addr);
    match success(myth::remote_addr(), &request) {
        Value::RemoteAddr(a) => assert_eq!(a, addr),
        other => panic!("unexpected {:?}", other),
    }
}

#[test]
fn retrieve_method_patch() {
    let request = Request::new(Method::Patch, b"/".to_vec(), vec![]).unwrap();
    assert!(matches!(success(myth::method::method(), &request), Value::Method(Method::Patch)));
}

#[test]
fn complex_uri() {
    let request = Request::new(Method::Get, b"/hello/foo//e/////h/aaa".to_vec(), vec![])
        .unwrap()
        .with_query(b"5=6".to_vec());
    match success(myth::uri::uri(), &request) {
        Value::Uri(path, query) => {
            assert_eq!(path, b"/hello/foo//e/////h/aaa");
            assert_eq!(query, Some(b"5=6".to_vec()));
        },
        other => panic!("unexpected {:?}", other),
    }
}

#[test]
fn http_11() {
    let request = get().with_version(Version::Http11);
    assert!(matches!(success(myth::version::version(), &request), Value::Version(Version::Http11)));
}

#[test]
fn http_2() {
    let request = Request::new(Method::Post, b"/".to_vec(), vec![]).unwrap().with_version(Version::Http2);
    assert!(matches!(success(myth::version::version(), &request), Value::Version(Version::Http2)));
}
