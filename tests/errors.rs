use myth::errors::{FilterError, Recoverable};
use myth::values::Value;

const SOME_ERROR: u64 = 1;
const OTHER_ERROR: u64 = 2;

#[test]
fn downcast_test() {
    let boxed = FilterError::Custom { tag: SOME_ERROR, payload: Value::Int(555) };
    let error = boxed.downcast(Recoverable::Custom(SOME_ERROR)).unwrap();
    match error {
        FilterError::Custom { payload: Value::Int(data), .. } => assert_eq!(data, 555),
        other => panic!("unexpected {:?}", other),
    }

    let boxed = FilterError::Custom { tag: OTHER_ERROR, payload: Value::Text("abcdef".to_owned()) };
    let obj = boxed.downcast(Recoverable::Custom(SOME_ERROR)).unwrap_err();
    let obj = obj.downcast(Recoverable::Custom(SOME_ERROR)).unwrap_err();
    let error = obj.downcast(Recoverable::Custom(OTHER_ERROR)).unwrap();
    match error {
        FilterError::Custom { payload: Value::Text(data), .. } => assert_eq!(data, "abcdef"),
        other => panic!("unexpected {:?}", other),
    }
}

#[test]
fn envelope_catches_everything() {
    let e = FilterError::Custom { tag: 9, payload: Value::Bool(true) };
    assert!(e.downcast(Recoverable::Any).is_ok());
    let e = FilterError::Custom { tag: 9, payload: Value::Bool(true) };
    assert!(e.downcast(Recoverable::Redirect).is_err());
}

#[test]
fn default_error_responses() {
    let r = FilterError::ContentLength(myth::body::ContentLengthError { length: 7 }).into_response();
    assert_eq!(r.status, 413);
    let r = FilterError::Custom { tag: 1, payload: Value::Int(0) }.into_response();
    assert_eq!(r.status, 500);
    assert_eq!(r.body, b"Internal Server Error");
    let r = FilterError::Redirect(myth::path::Redirect { location: b"/a".to_vec() }).into_response();
    assert_eq!(r.status, 308);
    assert_eq!(r.body, b"Permanent Redirect");
    assert_eq!(r.headers.last(), Some(&(b"location".to_vec(), b"/a".to_vec())));
}
