use myth::body::{all, content_length_limit, parse_usize, BytesBuf};
use myth::errors::FilterError;
use myth::filter::{AsyncTryFn, Filter};
use myth::forward::{Forwarding, Method};
use myth::outcome::Outcome;
use myth::request::{Request, RequestState};
use myth::values::{Tuple, Value};

struct NoHandlers;

impl AsyncTryFn for NoHandlers {
    fn call(&self, _args: Tuple) -> Result<Value, FilterError> {
        unreachable!()
    }

    fn recover(&self, _error: FilterError) -> Result<Value, FilterError> {
        unreachable!()
    }

    fn recover_forward(&self, _error: FilterError) -> Result<Forwarding, FilterError> {
        unreachable!()
    }
}

fn buf(chunks: &[&[u8]]) -> BytesBuf {
    BytesBuf::new(chunks.iter().map(|c| c.to_vec()).collect())
}

#[test]
fn read_bytes_buf() {
    let bytes: &[&'static [u8]] = &[
        b"abcdefg", b"hij", b"klmn", b"o", b"pq", b"r", b"s", b"tuv", b"w", b"x", b"yz",
    ];
    let mut reader = buf(bytes);

    let mut buf4 = vec![0; 4];
    assert_eq!(reader.read(&mut buf4), 4);
    assert_eq!(&buf4, b"abcd");

    let mut buf3 = vec![8; 3];
    assert_eq!(reader.read(&mut buf3), 3);
    assert_eq!(&buf3, b"efg");

    assert_eq!(reader.read(&mut vec![]), 0);

    let mut buf2 = vec![0; 2];
    assert_eq!(reader.read(&mut buf2), 2);
    assert_eq!(&buf2, b"hi");

    let mut buf6 = vec![0; 6];
    assert_eq!(reader.read(&mut buf6), 6);
    assert_eq!(&buf6, b"jklmno");

    let mut buf3 = vec![1; 3];
    assert_eq!(reader.read(&mut buf3), 3);
    assert_eq!(&buf3, b"pqr");

    let mut buf5 = vec![0; 5];
    assert_eq!(reader.read(&mut buf5), 5);
    assert_eq!(&buf5, b"stuvw");

    assert_eq!(reader.read(&mut vec![]), 0);

    let mut buf3 = vec![0; 3];
    assert_eq!(reader.read(&mut buf3), 3);
    assert_eq!(&buf3, b"xyz");

    assert_eq!(reader.read(&mut vec![]), 0);

    assert_eq!(reader.read(&mut vec![0; 6]), 0);

    let mut reader = buf(&[b"12345", b"678", b"90"]);
    assert_eq!(reader.remaining(), 10);

    let mut buf2 = vec![0; 2];
    assert_eq!(reader.read(&mut buf2), 2);
    assert_eq!(&buf2, b"12");

    let mut buf10 = vec![b'-'; 10];
    assert_eq!(reader.read(&mut buf10), 8);
    assert_eq!(&buf10, b"34567890--");

    assert_eq!(reader.read(&mut vec![b'$'; 10]), 0);

    assert_eq!(reader.read(&mut vec![]), 0);
}

#[test]
fn body_buffer_reads_back_original_bytes() {
    let mut reader = buf(&[b"abcdefg", b"hij"]);
    assert_eq!(reader.remaining(), 10);
    let mut out = Vec::new();
    for n in [4usize, 3, 10] {
        let mut part = vec![0; n];
        let got = reader.read(&mut part);
        out.extend_from_slice(&part[..got]);
    }
    assert_eq!(out, b"abcdefghij");
    assert_eq!(reader.read(&mut vec![0; 4]), 0);
}

#[test]
fn chunk_and_advance() {
    let mut reader = buf(&[b"ab", b"", b"cde"]);
    assert_eq!(reader.chunk(), b"ab");
    reader.advance(1);
    assert_eq!(reader.chunk(), b"b");
    reader.advance(2);
    assert_eq!(reader.chunk(), b"de");
    assert_eq!(reader.remaining(), 2);
    reader.advance(2);
    assert_eq!(reader.chunk(), b"");
    assert_eq!(reader.remaining(), 0);
}

#[test]
fn parse_content_length() {
    assert_eq!(parse_usize(b"0"), Some(0));
    assert_eq!(parse_usize(b"+12"), Some(12));
    assert_eq!(parse_usize(b"18446744073709551615"), Some(usize::MAX));
    assert_eq!(parse_usize(b"18446744073709551616"), None);
    assert_eq!(parse_usize(b""), None);
    assert_eq!(parse_usize(b"+"), None);
    assert_eq!(parse_usize(b"1x"), None);
    assert_eq!(parse_usize(b"-1"), None);
}

fn run_limit(limit: usize, headers: Vec<(Vec<u8>, Vec<u8>)>) -> Outcome {
    let filter: Filter<NoHandlers> = content_length_limit(limit);
    let request = Request::new(Method::Post, b"/".to_vec(), headers).unwrap();
    let state = RequestState::new(BytesBuf::new(vec![]));
    filter.execute(&request, state, Tuple::new()).outcome
}

#[test]
fn content_length_guard() {
    let over = run_limit(10, vec![(b"Content-Length".to_vec(), b"11".to_vec())]);
    match over {
        Outcome::Error(FilterError::ContentLength(e)) => assert_eq!(e.length(), 11),
        other => panic!("unexpected {:?}", other),
    }
    assert!(matches!(run_limit(10, vec![]), Outcome::Success(t) if t.len() == 0));
    assert!(matches!(
        run_limit(10, vec![(b"content-length".to_vec(), b"10".to_vec())]),
        Outcome::Success(t) if t.len() == 0
    ));
    assert!(Request::new(Method::Post, b"/".to_vec(), vec![(b"content-length".to_vec(), b"ten".to_vec())]).is_none());
}

#[test]
fn whole_body_filter() {
    let filter: Filter<NoHandlers> = all();
    let request = Request::new(Method::Post, b"/".to_vec(), vec![]).unwrap();
    let state = RequestState::new(buf(&[b"he", b"llo"]));
    let out = filter.execute(&request, state, Tuple::new());
    match out.outcome {
        Outcome::Success(t) => match t.into_inner() {
            Value::Body(mut b) => {
                let mut bytes = vec![0; 5];
                assert_eq!(b.read(&mut bytes), 5);
                assert_eq!(bytes, b"hello");
            },
            other => panic!("unexpected {:?}", other),
        },
        other => panic!("unexpected {:?}", other),
    }

    let state = RequestState::with_failed_body();
    let out = filter.execute(&request, state, Tuple::new());
    assert!(matches!(out.outcome, Outcome::Error(FilterError::Body(ref e)) if !e.earlier()));
    let out = filter.execute(&request, out.request_state, Tuple::new());
    assert!(matches!(out.outcome, Outcome::Error(FilterError::Body(ref e)) if e.earlier()));
}
