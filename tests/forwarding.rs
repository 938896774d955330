use myth::forward::{AttemptedMethods, Forwarding, Method};

#[test]
fn combine_identity_and_union() {
    let get = Forwarding::MethodNotAllowed(AttemptedMethods::of(Method::Get));
    assert_eq!(Forwarding::NotFound.combine(get), get);
    assert_eq!(get.combine(Forwarding::NotFound), get);
    let post = Forwarding::MethodNotAllowed(AttemptedMethods::of(Method::Post));
    assert_eq!(get.combine(post), Forwarding::MethodNotAllowed(AttemptedMethods(3)));
    assert_eq!(Forwarding::NotFound.combine(Forwarding::NotFound), Forwarding::NotFound);
}

#[test]
fn combine_associative() {
    let a = Forwarding::MethodNotAllowed(AttemptedMethods::of(Method::Put));
    let b = Forwarding::NotFound;
    let c = Forwarding::MethodNotAllowed(AttemptedMethods::of(Method::Trace));
    assert_eq!(a.combine(b).combine(c), a.combine(b.combine(c)));
    assert_eq!(a.combine(c), c.combine(a));
}

#[test]
fn allow_header_lists_methods_in_order() {
    let set = AttemptedMethods::of(Method::Patch)
        .union(AttemptedMethods::of(Method::Get))
        .union(AttemptedMethods::of(Method::Put));
    assert_eq!(set.into_header_value(), b"GET, PUT, PATCH".to_vec());
    assert_eq!(AttemptedMethods::none().into_header_value(), Vec::<u8>::new());
    let r = Forwarding::MethodNotAllowed(set).into_response();
    assert_eq!(r.status, 405);
    assert_eq!(r.headers.last(), Some(&(b"allow".to_vec(), b"GET, PUT, PATCH".to_vec())));
    assert_eq!(r.body, b"Method Not Allowed");
    let r = Forwarding::NotFound.into_response();
    assert_eq!(r.status, 404);
    assert_eq!(r.body, b"Not Found");
    assert_eq!(r.headers, vec![(b"content-type".to_vec(), b"text/plain; charset=utf-8".to_vec())]);
}
