//! Filters: the steps a request runs through, and how they compose.
use vstd::prelude::*;
use crate::body::{BodyError, ContentLengthError};
use crate::errors::{recovers, FilterError, Recoverable};
use crate::forward::{spec_combine, AttemptedMethods, Forwarding, Method};
use crate::outcome::{Outcome, RequestOutcome};
use crate::request::{BodyState, Request, RequestState};
use crate::values::{same_value, spec_append, spec_split, Tuple, Value};

verus! {

/// The functions that `handle`, `recover` and `recover_forward` bind to
/// filters. The application implements it, for instance on an enum of its
/// handlers; nothing is promised of what they return.
pub trait AsyncTryFn {
    /// Called with the success values of the filter it is bound to.
    fn call(&self, args: Tuple) -> Result<Value, FilterError>;

    /// Called by a recovery with the error it intercepted.
    fn recover(&self, error: FilterError) -> Result<Value, FilterError>;

    /// Called by a forwarding recovery with the error it intercepted.
    fn recover_forward(&self, error: FilterError) -> Result<Forwarding, FilterError>;
}

/// Where a combinator stands once a child has ended: done, or going on with
/// a state and what the next child needs.
pub enum Step<T> {
    Done(RequestOutcome),
    Continue(RequestState, T),
}

/// A tree of filters. Leaves look at the request; inner nodes compose.
pub enum Filter<H> {
    /// Always succeeds with no values.
    Any,
    /// Always forwards as not found.
    Never,
    /// Matches one path segment equal to the text.
    Literal(String),
    /// Takes one path segment as text.
    ParamStr,
    /// Takes one path segment as an integer; forwards when it does not parse.
    Param,
    /// Matches the end of the path.
    End,
    /// Takes the rest of the path.
    Tail,
    /// Takes the rest of the path, sanitized.
    TailPath,
    /// Succeeds with a copy of the value.
    Borrowing(Value),
    /// Succeeds when the request method is this one.
    Method(Method),
    /// Fails when the declared body length exceeds the limit.
    ContentLengthLimit(usize),
    /// Takes the whole body.
    Body,
    /// Takes the value of the first header with this (lower case) name;
    /// forwards when there is none.
    Header(Vec<u8>),
    /// Takes the request method.
    RequestMethod,
    /// Takes the full request path.
    FullPath,
    /// Takes the request URI.
    Uri,
    /// Takes the HTTP version.
    Version,
    /// Takes the client's address.
    RemoteAddr,
    /// Sets a header (name, value) on the response it gets as input.
    SetHeader(Vec<u8>, Vec<u8>),
    /// Answers 304 when the client's copy is fresh (see [`crate::cache::if_unmodified_since`]).
    IfUnmodifiedSince,
    And(And<H>),
    Or(Or<H>),
    Handle(Handle<H>),
    Then(Then<H>),
    Recover(Recover<H>),
    RecoverForward(RecoverForward<H>),
    Receive(Receive<H>),
    Untuple(Untuple<H>),
    /// Applies a CORS policy around a filter.
    Cors(crate::security::origin::Cors<H>),
    /// A shared filter (see [`DynamicFilter`]).
    Dynamic(DynamicFilter<H>),
}

/// A filter behind a shared pointer: cloning it shares the filter instead of
/// copying it, and it behaves exactly as the filter it holds.
#[derive(Clone)]
pub struct DynamicFilter<H>(pub std::sync::Arc<Filter<H>>);

/// Runs `first` with no input, then `second` with the input; succeeds with
/// both successes, `first`'s in front.
pub struct And<H> {
    pub first: Box<Filter<H>>,
    pub second: Box<Filter<H>>,
}

/// Runs `first`; when it forwards, puts the cursor back and runs `second`.
pub struct Or<H> {
    pub first: Box<Filter<H>>,
    pub second: Box<Filter<H>>,
}

/// Runs `filter`, then calls `func` with its success values.
pub struct Handle<H> {
    pub filter: Box<Filter<H>>,
    pub func: H,
}

/// Runs `first` with no input, then `second` with the input followed by
/// `first`'s success.
pub struct Then<H> {
    pub first: Box<Filter<H>>,
    pub second: Box<Filter<H>>,
}

/// Runs `filter`; an error of exactly the type `error` goes to `func`, whose
/// value becomes the success.
pub struct Recover<H> {
    pub filter: Box<Filter<H>>,
    pub func: H,
    pub error: Recoverable,
}

/// Runs `filter`; an error of exactly the type `error` goes to `func`, whose
/// forwarding reason becomes a forward.
pub struct RecoverForward<H> {
    pub filter: Box<Filter<H>>,
    pub func: H,
    pub error: Recoverable,
}

/// Takes the first `count` values of the input aside, runs `filter` on the
/// rest, and puts them back in front of its success or forwarded input.
pub struct Receive<H> {
    pub filter: Box<Filter<H>>,
    pub count: usize,
}

/// Runs the filter; a success that is one nested list becomes that list.
pub struct Untuple<H>(pub Box<Filter<H>>);

/// A forward now hands back `input`; other outcomes stay.
pub open spec fn spec_with_input(o: Outcome, input: Tuple) -> Outcome {
    match o {
        Outcome::Forward { forwarding, .. } => Outcome::Forward { input, forwarding },
        _ => o,
    }
}

fn with_input(o: Outcome, input: Tuple) -> (r: Outcome)
    ensures
        r == spec_with_input(o, input),
{
    match o {
        Outcome::Forward { forwarding, .. } => Outcome::Forward { input, forwarding },
        _ => o,
    }
}

impl<H> And<H> {
    /// After `first`: a success goes on to `second` with the original input;
    /// an error ends the composite; a forward ends it, handing back the input.
    pub fn after_first(&self, input: Tuple, first: RequestOutcome) -> (r: Step<(Tuple, Tuple)>)
        ensures
            match first.outcome {
                Outcome::Success(s) => r == Step::Continue(first.request_state, (input, s)),
                _ => r == Step::<(Tuple, Tuple)>::Done(RequestOutcome {
                    request_state: first.request_state,
                    outcome: spec_with_input(first.outcome, input),
                }),
            },
    {
        match first.outcome {
            Outcome::Success(s) => Step::Continue(first.request_state, (input, s)),
            o => Step::Done(RequestOutcome { request_state: first.request_state, outcome: with_input(o, input) }),
        }
    }

    /// After `second`: its success gets `first`'s in front; the rest stays.
    pub fn after_second(&self, first_success: Tuple, second: RequestOutcome) -> (r: RequestOutcome)
        ensures
            r.request_state == second.request_state,
            match second.outcome {
                Outcome::Success(s) => r.outcome.is_success_of(spec_append(first_success@, s@)),
                _ => r.outcome == second.outcome,
            },
    {
        match second.outcome {
            Outcome::Success(s) => RequestOutcome {
                request_state: second.request_state,
                outcome: Outcome::Success(first_success.append(s)),
            },
            o => RequestOutcome { request_state: second.request_state, outcome: o },
        }
    }
}

/// The state with its cursor put back to `path_index`.
pub open spec fn spec_reset(state: RequestState, path_index: usize) -> RequestState {
    RequestState { current_path_index: path_index, body: state.body }
}

fn reset(state: RequestState, path_index: usize) -> (r: RequestState)
    ensures
        r == spec_reset(state, path_index),
{
    RequestState { current_path_index: path_index, body: state.body }
}

impl<H> Or<H> {
    /// After `first`: success and error end the composite unchanged; a forward
    /// puts the cursor back where it was when the composite started, and
    /// goes on to `second` with the forwarded input.
    pub fn after_first(&self, path_index: usize, first: RequestOutcome) -> (r: Step<(Tuple, Forwarding)>)
        ensures
            match first.outcome {
                Outcome::Forward { input, forwarding } => r == Step::Continue(
                    spec_reset(first.request_state, path_index),
                    (input, forwarding),
                ),
                _ => r == Step::<(Tuple, Forwarding)>::Done(first),
            },
    {
        match first.outcome {
            Outcome::Forward { input, forwarding } => Step::Continue(
                reset(first.request_state, path_index),
                (input, forwarding),
            ),
            o => Step::Done(RequestOutcome { request_state: first.request_state, outcome: o }),
        }
    }

    /// After `second`: success and error stay; a forward puts the cursor
    /// back again and combines both reasons.
    pub fn after_second(&self, path_index: usize, first_forwarding: Forwarding, second: RequestOutcome) -> (r: RequestOutcome)
        ensures
            match second.outcome {
                Outcome::Forward { input, forwarding } => r == (RequestOutcome {
                    request_state: spec_reset(second.request_state, path_index),
                    outcome: Outcome::Forward { input, forwarding: spec_combine(first_forwarding, forwarding) },
                }),
                _ => r == second,
            },
    {
        match second.outcome {
            Outcome::Forward { input, forwarding } => RequestOutcome {
                request_state: reset(second.request_state, path_index),
                outcome: Outcome::Forward { input, forwarding: first_forwarding.combine(forwarding) },
            },
            o => RequestOutcome { request_state: second.request_state, outcome: o },
        }
    }
}

impl<H> Handle<H> {
    /// After the filter: a success goes on to the function; the rest ends the
    /// composite unchanged.
    pub fn after_filter(&self, inner: RequestOutcome) -> (r: Step<Tuple>)
        ensures
            match inner.outcome {
                Outcome::Success(s) => r == Step::Continue(inner.request_state, s),
                _ => r == Step::<Tuple>::Done(inner),
            },
    {
        match inner.outcome {
            Outcome::Success(s) => Step::Continue(inner.request_state, s),
            o => Step::Done(RequestOutcome { request_state: inner.request_state, outcome: o }),
        }
    }

    /// After the function: `Ok` is a one-value success, `Err` an error.
    pub fn after_func(&self, state: RequestState, result: Result<Value, FilterError>) -> (r: RequestOutcome)
        ensures
            r.request_state == state,
            match result {
                Ok(v) => r.outcome.is_success_of(seq![v]),
                Err(e) => r.outcome == Outcome::Error(e),
            },
    {
        match result {
            Ok(v) => RequestOutcome { request_state: state, outcome: Outcome::Success(Tuple::one(v)) },
            Err(e) => RequestOutcome { request_state: state, outcome: Outcome::Error(e) },
        }
    }
}

impl<H> Then<H> {
    /// After `first`: a success goes on to `second` with the input followed
    /// by that success (and the input's length, to take it back later); an
    /// error ends the composite; a forward hands back the input untouched.
    pub fn after_first(&self, prepend: Tuple, first: RequestOutcome) -> (r: Step<(Tuple, usize)>)
        ensures
            match first.outcome {
                Outcome::Success(s) => r matches Step::Continue(st, (combined, n)) && st == first.request_state
                    && combined@ == spec_append(prepend@, s@) && n == prepend@.len(),
                _ => r == Step::<(Tuple, usize)>::Done(RequestOutcome {
                    request_state: first.request_state,
                    outcome: spec_with_input(first.outcome, prepend),
                }),
            },
    {
        match first.outcome {
            Outcome::Success(s) => {
                let n = prepend.len();
                Step::Continue(first.request_state, (prepend.append(s), n))
            },
            o => Step::Done(RequestOutcome { request_state: first.request_state, outcome: with_input(o, prepend) }),
        }
    }

    /// After `second`: a forward hands back only the first `prepend_len`
    /// values of its input (the composite's own input); the rest stays.
    pub fn after_second(&self, prepend_len: usize, second: RequestOutcome) -> (r: RequestOutcome)
        ensures
            r.request_state == second.request_state,
            match second.outcome {
                Outcome::Forward { input, forwarding } => prepend_len <= input@.len() ==> r.outcome.is_forward_of(
                    spec_split(input@, prepend_len as int).0,
                    forwarding,
                ),
                _ => r.outcome == second.outcome,
            },
    {
        match second.outcome {
            Outcome::Forward { input, forwarding } => {
                if prepend_len <= input.len() {
                    let (prepend, _rest) = Tuple::remove(input, prepend_len);
                    RequestOutcome {
                        request_state: second.request_state,
                        outcome: Outcome::Forward { input: prepend, forwarding },
                    }
                } else {
                    RequestOutcome { request_state: second.request_state, outcome: Outcome::Forward { input, forwarding } }
                }
            },
            o => RequestOutcome { request_state: second.request_state, outcome: o },
        }
    }
}

/// What a recovery does once its filter has ended, with the cursor as it was
/// at the start (`path_index`): a success keeps its values and gets the
/// cursor back; an error of exactly the named type goes on to the function,
/// cursor back; any other error, and a forward, pass through untouched.
pub open spec fn spec_recover_after_filter(target: Recoverable, path_index: usize, inner: RequestOutcome) -> Step<FilterError> {
    match inner.outcome {
        Outcome::Success(s) => Step::Done(RequestOutcome {
            request_state: spec_reset(inner.request_state, path_index),
            outcome: Outcome::Success(s),
        }),
        Outcome::Error(e) => if recovers(target, e) {
            Step::Continue(spec_reset(inner.request_state, path_index), e)
        } else {
            Step::Done(inner)
        },
        _ => Step::Done(inner),
    }
}

/// In a chain of recoveries, one that names another exact type hands an
/// error through untouched, so the recovery that names the error's own type
/// (or the envelope) still receives it, with the cursor put back.
pub proof fn lemma_nested_recovery(
    inner_type: Recoverable,
    outer_type: Recoverable,
    inner_index: usize,
    outer_index: usize,
    result: RequestOutcome,
)
    requires
        result.outcome is Error,
        inner_type != Recoverable::Any,
        inner_type != result.outcome->Error_0.spec_kind(),
        outer_type == Recoverable::Any || outer_type == result.outcome->Error_0.spec_kind(),
    ensures
        spec_recover_after_filter(inner_type, inner_index, result) == Step::<FilterError>::Done(result),
        spec_recover_after_filter(outer_type, outer_index, result) == Step::Continue(
            spec_reset(result.request_state, outer_index),
            result.outcome->Error_0,
        ),
{
}

impl<H> Recover<H> {
    /// After the filter; see [`spec_recover_after_filter`].
    pub fn after_filter(&self, path_index: usize, inner: RequestOutcome) -> (r: Step<FilterError>)
        ensures
            r == spec_recover_after_filter(self.error, path_index, inner),
    {
        match inner.outcome {
            Outcome::Success(s) => Step::Done(RequestOutcome {
                request_state: reset(inner.request_state, path_index),
                outcome: Outcome::Success(s),
            }),
            Outcome::Error(e) => match e.downcast(self.error) {
                Ok(e) => Step::Continue(reset(inner.request_state, path_index), e),
                Err(e) => Step::Done(RequestOutcome { request_state: inner.request_state, outcome: Outcome::Error(e) }),
            },
            o => Step::Done(RequestOutcome { request_state: inner.request_state, outcome: o }),
        }
    }

    /// After the function: `Ok` becomes a one-value success with the cursor
    /// back at `path_index`; `Err` an error.
    pub fn after_func(&self, path_index: usize, state: RequestState, result: Result<Value, FilterError>) -> (r: RequestOutcome)
        ensures
            match result {
                Ok(v) => r.request_state == spec_reset(state, path_index) && r.outcome.is_success_of(seq![v]),
                Err(e) => r.request_state == state && r.outcome == Outcome::Error(e),
            },
    {
        match result {
            Ok(v) => RequestOutcome { request_state: reset(state, path_index), outcome: Outcome::Success(Tuple::one(v)) },
            Err(e) => RequestOutcome { request_state: state, outcome: Outcome::Error(e) },
        }
    }
}

/// What a forwarding recovery does once its filter (run without input) has
/// ended: an error of exactly the named type goes on to the function; any
/// other error passes untouched; a success stays; a forward hands back the
/// composite's `input`.
pub open spec fn spec_recover_forward_after_filter(target: Recoverable, input: Tuple, inner: RequestOutcome) -> Step<(Tuple, FilterError)> {
    match inner.outcome {
        Outcome::Error(e) => if recovers(target, e) {
            Step::Continue(inner.request_state, (input, e))
        } else {
            Step::Done(inner)
        },
        _ => Step::Done(RequestOutcome { request_state: inner.request_state, outcome: spec_with_input(inner.outcome, input) }),
    }
}

impl<H> RecoverForward<H> {
    /// After the filter; see [`spec_recover_forward_after_filter`].
    pub fn after_filter(&self, input: Tuple, inner: RequestOutcome) -> (r: Step<(Tuple, FilterError)>)
        ensures
            r == spec_recover_forward_after_filter(self.error, input, inner),
    {
        match inner.outcome {
            Outcome::Error(e) => match e.downcast(self.error) {
                Ok(e) => Step::Continue(inner.request_state, (input, e)),
                Err(e) => Step::Done(RequestOutcome { request_state: inner.request_state, outcome: Outcome::Error(e) }),
            },
            o => Step::Done(RequestOutcome { request_state: inner.request_state, outcome: with_input(o, input) }),
        }
    }

    /// After the function: `Ok` becomes a forward for that reason, handing back
    /// the input; `Err` an error.
    pub fn after_func(&self, input: Tuple, state: RequestState, result: Result<Forwarding, FilterError>) -> (r: RequestOutcome)
        ensures
            r.request_state == state,
            match result {
                Ok(f) => r.outcome == (Outcome::Forward { input, forwarding: f }),
                Err(e) => r.outcome == Outcome::Error(e),
            },
    {
        match result {
            Ok(f) => RequestOutcome { request_state: state, outcome: Outcome::Forward { input, forwarding: f } },
            Err(e) => RequestOutcome { request_state: state, outcome: Outcome::Error(e) },
        }
    }
}

impl<H> Receive<H> {
    /// Splits the input into the received values (the first `count`, or all
    /// if fewer) and the rest, which the filter gets.
    pub fn split_input(&self, input: Tuple) -> (r: (Tuple, Tuple))
        ensures
            ({
                let n = if self.count <= input@.len() { self.count as int } else { input@.len() as int };
                (r.0@, r.1@) == spec_split(input@, n)
            }),
    {
        let n = if self.count <= input.len() { self.count } else { input.len() };
        Tuple::remove(input, n)
    }

    /// After the filter: the received values go back in front of its success
    /// and of its forwarded input.
    pub fn after_filter(&self, received: Tuple, inner: RequestOutcome) -> (r: RequestOutcome)
        ensures
            r.request_state == inner.request_state,
            match inner.outcome {
                Outcome::Success(s) => r.outcome.is_success_of(spec_append(received@, s@)),
                Outcome::Error(e) => r.outcome == Outcome::Error(e),
                Outcome::Forward { input, forwarding } => r.outcome.is_forward_of(spec_append(received@, input@), forwarding),
            },
    {
        let outcome = match inner.outcome {
            Outcome::Success(s) => Outcome::Success(received.append(s)),
            Outcome::Error(e) => Outcome::Error(e),
            Outcome::Forward { input, forwarding } => Outcome::Forward { input: received.append(input), forwarding },
        };
        RequestOutcome { request_state: inner.request_state, outcome }
    }
}

/// A list that holds one nested list becomes that list; any other stays.
pub open spec fn spec_untuple(s: Seq<Value>) -> Seq<Value> {
    if s.len() == 1 && s[0] is List {
        s[0]->List_0@
    } else {
        s
    }
}

impl<H> Untuple<H> {
    /// After the filter: a success is flattened one level; the rest stays.
    pub fn after_filter(&self, inner: RequestOutcome) -> (r: RequestOutcome)
        ensures
            r.request_state == inner.request_state,
            match inner.outcome {
                Outcome::Success(s) => r.outcome.is_success_of(spec_untuple(s@)),
                _ => r.outcome == inner.outcome,
            },
    {
        let outcome = match inner.outcome {
            Outcome::Success(s) => {
                if s.len() == 1 {
                    let ghost sv = s@;
                    let v = s.into_inner();
                    match v {
                        Value::List(t) => Outcome::Success(t),
                        v => {
                            assert(seq![v] =~= sv);
                            Outcome::Success(Tuple::one(v))
                        },
                    }
                } else {
                    Outcome::Success(s)
                }
            },
            o => o,
        };
        RequestOutcome { request_state: inner.request_state, outcome }
    }
}

/// What the method filter does.
pub open spec fn method_result(method: Method, request: Request, o: Outcome) -> bool {
    if request.method == method {
        o.is_success_of(Seq::<Value>::empty())
    } else {
        o.is_forward_of(
            Seq::<Value>::empty(),
            Forwarding::MethodNotAllowed(AttemptedMethods(crate::forward::method_bit(method))),
        )
    }
}

/// What the content-length guard does.
pub open spec fn content_length_result(limit: usize, request: Request, o: Outcome) -> bool {
    let h = crate::request::header_lookup(crate::request::header_views(request.headers@), crate::request::content_length_name());
    match h {
        None => o.is_success_of(Seq::<Value>::empty()),
        Some(v) => {
            let n = crate::body::spec_parse_usize(v).unwrap();
            if n <= limit {
                o.is_success_of(Seq::<Value>::empty())
            } else {
                o matches Outcome::Error(FilterError::ContentLength(e)) && e.length == n
            }
        },
    }
}

/// What the header filter does.
pub open spec fn header_result(name: Seq<u8>, request: Request, o: Outcome) -> bool {
    match crate::request::header_lookup(crate::request::header_views(request.headers@), name) {
        Some(v) => o matches Outcome::Success(t) && t@.len() == 1 && (t@[0] matches Value::Bytes(b) && b@ == v),
        None => o.is_forward_of(Seq::<Value>::empty(), Forwarding::NotFound),
    }
}

/// What setting a header on the input response does.
pub open spec fn set_header_result(name: Seq<u8>, value: Seq<u8>, input: Seq<Value>, o: Outcome) -> bool {
    if input.len() == 1 && input[0] is Response {
        o matches Outcome::Success(t) && t@.len() == 1 && (t@[0] matches Value::Response(x)
            && x.status == input[0]->Response_0.status && crate::request::header_views(x.headers@)
                == crate::response::without_name(crate::request::header_views(input[0]->Response_0.headers@), name).push((name, value)))
    } else {
        o.is_forward_of(input, Forwarding::NotFound)
    }
}

/// What taking the body does.
pub open spec fn body_result(before: RequestState, after: RequestState, o: Outcome) -> bool {
    &&& after.current_path_index == before.current_path_index
    &&& match before.body {
        BodyState::Finished(b) => after.body == before.body && (o matches Outcome::Success(t)
            && t@.len() == 1 && (t@[0] matches Value::Body(c) && c.wf() && c@ == b@)),
        BodyState::Failed { reported } => after.body == (BodyState::Failed { reported: true })
            && (o matches Outcome::Error(FilterError::Body(e)) && e.earlier == reported),
    }
}

/// Succeeds when the request method is `method`; otherwise forwards, naming
/// `method` as attempted.
pub fn match_method(method: Method, request: &Request) -> (o: Outcome)
    ensures
        method_result(method, *request, o),

{
    if request.method == method {
        Outcome::empty_success()
    } else {
        Outcome::Forward { input: Tuple::new(), forwarding: Forwarding::MethodNotAllowed(AttemptedMethods::of(method)) }
    }
}

/// The content-length guard: no header, or a declared length within `limit`,
/// succeeds with no values; a larger one fails with that length.
pub fn check_content_length(limit: usize, request: &Request) -> (o: Outcome)
    requires
        request.wf(),
    ensures
        content_length_result(limit, *request, o),

{
    let name = crate::request::content_length_header();
    match request.header(name.as_slice()) {
        Some(v) => {
            match crate::body::parse_usize(v) {
                Some(length) => {
                    if length <= limit {
                        Outcome::empty_success()
                    } else {
                        Outcome::Error(FilterError::ContentLength(ContentLengthError { length }))
                    }
                },
                None => Outcome::empty_success(),
            }
        },
        None => Outcome::empty_success(),
    }
}

/// The request URI as a value.
pub fn request_uri(request: &Request) -> (r: Value)
    ensures
        r matches Value::Uri(p, q) && p@ == request.path@ && crate::security::origin::opt_bytes(q)
            == crate::security::origin::opt_bytes(request.query),
{
    let path = vstd::slice::slice_to_vec(request.path.as_slice());
    let query = match &request.query {
        Some(q) => Some(vstd::slice::slice_to_vec(q.as_slice())),
        None => None,
    };
    Value::Uri(path, query)
}

/// The first header named `name`: a success with its value, or a forward
/// when the request has none.
pub fn match_header(name: &Vec<u8>, request: &Request) -> (o: Outcome)
    ensures
        header_result(name@, *request, o),

{
    match request.header(name.as_slice()) {
        Some(v) => Outcome::Success(Tuple::one(Value::Bytes(vstd::slice::slice_to_vec(v)))),
        None => Outcome::not_found(),
    }
}

/// Sets a header on the one response the input holds; an input of any other
/// shape forwards, handed back.
pub fn set_header_on_input(name: &Vec<u8>, value: &Vec<u8>, input: Tuple) -> (o: Outcome)
    ensures
        set_header_result(name@, value@, input@, o),

{
    if input.len() == 1 && matches!(input.items[0], Value::Response(_)) {
        let ghost iv = input@;
        match input.into_inner() {
            Value::Response(r) => {
                let n = name.clone();
                let v = value.clone();
                assert(n@ =~= name@);
                assert(v@ =~= value@);
                Outcome::Success(Tuple::one(Value::Response(r.set_header(n, v))))
            },
            other => Outcome::Forward { input: Tuple::one(other), forwarding: Forwarding::NotFound },
        }
    } else {
        Outcome::Forward { input, forwarding: Forwarding::NotFound }
    }
}

/// Takes the whole body: a delivered body succeeds with a buffer over its
/// bytes (the state keeps its own); a failed one fails, and is marked as
/// reported.
pub fn take_body(state: &mut RequestState) -> (o: Outcome)
    requires
        old(state).body.wf(),
    ensures
        final(state).body.wf(),
        body_result(*old(state), *final(state), o),

{
    match &state.body {
        BodyState::Finished(b) => {
            let copy = b.duplicate();
            Outcome::Success(Tuple::one(Value::Body(copy)))
        },
        BodyState::Failed { reported } => {
            let earlier = *reported;
            state.body = BodyState::Failed { reported: true };
            Outcome::Error(FilterError::Body(BodyError { earlier }))
        },
    }
}

impl<H> Filter<H> {
    /// Joins two filters; both must succeed (see [`And`]).
    pub fn and(self, other: Filter<H>) -> (r: Filter<H>)
        ensures
            r matches Filter::And(a) && *a.first == self && *a.second == other,
    {
        Filter::And(And { first: Box::new(self), second: Box::new(other) })
    }

    /// Falls back on `other` when this filter forwards (see [`Or`]).
    pub fn or(self, other: Filter<H>) -> (r: Filter<H>)
        ensures
            r matches Filter::Or(a) && *a.first == self && *a.second == other,
    {
        Filter::Or(Or { first: Box::new(self), second: Box::new(other) })
    }

    /// Calls `func` with this filter's success values (see [`Handle`]).
    pub fn handle(self, func: H) -> (r: Filter<H>)
        ensures
            r matches Filter::Handle(h) && *h.filter == self && h.func == func,
    {
        Filter::Handle(Handle { filter: Box::new(self), func })
    }

    /// Runs `other` on the input followed by this filter's success (see [`Then`]).
    pub fn then(self, other: Filter<H>) -> (r: Filter<H>)
        ensures
            r matches Filter::Then(t) && *t.first == self && *t.second == other,
    {
        Filter::Then(Then { first: Box::new(self), second: Box::new(other) })
    }

    /// Recovers errors of exactly the type `error` with `func` (see [`Recover`]).
    pub fn recover(self, error: Recoverable, func: H) -> (r: Filter<H>)
        ensures
            r matches Filter::Recover(rc) && *rc.filter == self && rc.func == func && rc.error == error,
    {
        Filter::Recover(Recover { filter: Box::new(self), func, error })
    }

    /// Turns errors of exactly the type `error` into forwards with `func`
    /// (see [`RecoverForward`]).
    pub fn recover_forward(self, error: Recoverable, func: H) -> (r: Filter<H>)
        ensures
            r matches Filter::RecoverForward(rf) && *rf.filter == self && rf.func == func && rf.error == error,
    {
        Filter::RecoverForward(RecoverForward { filter: Box::new(self), func, error })
    }

    /// Receives the first `count` input values past this filter (see [`Receive`]).
    pub fn receive(self, count: usize) -> (r: Filter<H>)
        ensures
            r matches Filter::Receive(rv) && *rv.filter == self && rv.count == count,
    {
        Filter::Receive(Receive { filter: Box::new(self), count })
    }

    /// Puts this filter behind a shared pointer (see [`DynamicFilter`]).
    pub fn dynamic(self) -> (r: Filter<H>)
        ensures
            r matches Filter::Dynamic(d) && *d.0 == self,
    {
        Filter::Dynamic(DynamicFilter(std::sync::Arc::new(self)))
    }

    /// Flattens a success that is one nested list (see [`Untuple`]).
    pub fn untuple(self) -> (r: Filter<H>)
        ensures
            r matches Filter::Untuple(u) && *u.0 == self,
    {
        Filter::Untuple(Untuple(Box::new(self)))
    }
}

/// `out` is the leaf outcome `o`, except that a forward hands back `input`.
pub open spec fn with_input_of(out: Outcome, o: Outcome, input: Seq<Value>) -> bool {
    match o {
        Outcome::Forward { forwarding, .. } => out.is_forward_of(input, forwarding),
        _ => out == o,
    }
}

/// A success that holds one response.
pub open spec fn is_single_response(o: Outcome) -> bool {
    o matches Outcome::Success(t) && t@.len() == 1 && t@[0] is Response
}

/// The steps of one run of a filter: the outcome of a leaf, or the runs of
/// the children of a node with their outcomes (`Empty` where a child did not
/// run).
pub enum Derivation {
    Empty,
    Leaf(Outcome),
    Node(Box<Derivation>, RequestOutcome, Box<Derivation>, RequestOutcome),
}

/// Whether `d` shows a run of `f` on `request`, from `state` and with
/// `input`, that ends in `out`. The functions bound by `handle` and the
/// recoveries may return anything, so a tree that holds them may end in
/// several ways; every other step is determined.
pub open spec fn derives<H>(f: Filter<H>, request: Request, state: RequestState, input: Seq<Value>, out: RequestOutcome, d: Derivation) -> bool
    decreases f,
{
    let same = out.request_state == state;
    match f {
        Filter::Any => same && out.outcome.is_success_of(Seq::<Value>::empty()),
        Filter::Never => same && out.outcome.is_forward_of(input, Forwarding::NotFound),
        Filter::Literal(v) => d matches Derivation::Leaf(o) && crate::path::literal_result(v@, request, state, out.request_state, o)
            && with_input_of(out.outcome, o, input),
        Filter::ParamStr => d matches Derivation::Leaf(o) && crate::path::param_str_result(request, state, out.request_state, o)
            && with_input_of(out.outcome, o, input),
        Filter::Param => d matches Derivation::Leaf(o) && crate::path::param_result(request, state, out.request_state, o)
            && with_input_of(out.outcome, o, input),
        Filter::End => same && (d matches Derivation::Leaf(o) && crate::path::end_result(request, state, o)
            && with_input_of(out.outcome, o, input)),
        Filter::Tail => d matches Derivation::Leaf(o) && crate::path::tail_result(request, state, out.request_state, o)
            && with_input_of(out.outcome, o, input),
        Filter::TailPath => d matches Derivation::Leaf(o) && crate::path::tail_path_result(request, state, out.request_state, o)
            && with_input_of(out.outcome, o, input),
        Filter::Borrowing(v) => same && (out.outcome matches Outcome::Success(t) && t@.len() == 1 && same_value(v, t@[0])),
        Filter::Method(m) => same && (d matches Derivation::Leaf(o) && method_result(m, request, o) && with_input_of(out.outcome, o, input)),
        Filter::ContentLengthLimit(limit) => same && (d matches Derivation::Leaf(o) && content_length_result(limit, request, o)
            && with_input_of(out.outcome, o, input)),
        Filter::Body => d matches Derivation::Leaf(o) && body_result(state, out.request_state, o) && with_input_of(out.outcome, o, input),
        Filter::Header(name) => same && (d matches Derivation::Leaf(o) && header_result(name@, request, o)
            && with_input_of(out.outcome, o, input)),
        Filter::RequestMethod => same && out.outcome.is_success_of(seq![Value::Method(request.method)]),
        Filter::FullPath => same && (out.outcome matches Outcome::Success(t) && t@.len() == 1
            && (t@[0] matches Value::Bytes(b) && b@ == request.path@)),
        Filter::Uri => same && (out.outcome matches Outcome::Success(t) && t@.len() == 1 && (t@[0] matches Value::Uri(p, q)
            && p@ == request.path@ && crate::security::origin::opt_bytes(q) == crate::security::origin::opt_bytes(request.query))),
        Filter::Version => same && out.outcome.is_success_of(seq![Value::Version(request.version)]),
        Filter::RemoteAddr => same && out.outcome.is_success_of(seq![Value::RemoteAddr(request.remote_addr)]),
        Filter::SetHeader(name, value) => same && set_header_result(name@, value@, input, out.outcome),
        Filter::IfUnmodifiedSince => same && crate::cache::if_unmodified_result(request, input, out.outcome),
        Filter::And(a) => d matches Derivation::Node(d1, o1, d2, o2) && derives(*a.first, request, state, Seq::<Value>::empty(), o1, *d1)
            && match o1.outcome {
                Outcome::Success(s1) => derives(*a.second, request, o1.request_state, input, o2, *d2)
                    && out.request_state == o2.request_state && match o2.outcome {
                        Outcome::Success(s2) => out.outcome.is_success_of(s1@ + s2@),
                        _ => out.outcome == o2.outcome,
                    },
                _ => out.request_state == o1.request_state && with_input_of(out.outcome, o1.outcome, input),
            },
        Filter::Or(a) => d matches Derivation::Node(d1, o1, d2, o2) && derives(*a.first, request, state, input, o1, *d1)
            && match o1.outcome {
                Outcome::Forward { input: i1, forwarding: f1 } => derives(
                    *a.second,
                    request,
                    spec_reset(o1.request_state, state.current_path_index),
                    i1@,
                    o2,
                    *d2,
                ) && match o2.outcome {
                    Outcome::Forward { input: i2, forwarding: f2 } => out.request_state == spec_reset(
                        o2.request_state,
                        state.current_path_index,
                    ) && out.outcome.is_forward_of(i2@, spec_combine(f1, f2)),
                    _ => out == o2,
                },
                _ => out == o1,
            },
        Filter::Handle(h) => d matches Derivation::Node(d1, o1, _, _) && derives(*h.filter, request, state, input, o1, *d1)
            && match o1.outcome {
                Outcome::Success(_) => out.request_state == o1.request_state && (out.outcome is Error || (out.outcome matches Outcome::Success(t)
                    && t@.len() == 1)),
                _ => out == o1,
            },
        Filter::Then(t) => d matches Derivation::Node(d1, o1, d2, o2) && derives(*t.first, request, state, Seq::<Value>::empty(), o1, *d1)
            && match o1.outcome {
                Outcome::Success(s1) => derives(*t.second, request, o1.request_state, input + s1@, o2, *d2)
                    && out.request_state == o2.request_state && match o2.outcome {
                        Outcome::Forward { input: i2, forwarding } => input.len() <= i2@.len() ==> out.outcome.is_forward_of(
                            i2@.subrange(0, input.len() as int),
                            forwarding,
                        ),
                        _ => out.outcome == o2.outcome,
                    },
                _ => out.request_state == o1.request_state && with_input_of(out.outcome, o1.outcome, input),
            },
        Filter::Recover(rc) => d matches Derivation::Node(d1, o1, _, _) && derives(*rc.filter, request, state, input, o1, *d1)
            && match spec_recover_after_filter(rc.error, state.current_path_index, o1) {
                Step::Done(done) => out == done,
                Step::Continue(st, _) => (out.request_state == spec_reset(st, state.current_path_index) && (out.outcome matches Outcome::Success(t)
                    && t@.len() == 1)) || (out.request_state == st && out.outcome is Error),
            },
        Filter::RecoverForward(rf) => d matches Derivation::Node(d1, o1, _, _)
            && derives(*rf.filter, request, state, Seq::<Value>::empty(), o1, *d1)
            && out.request_state == o1.request_state && match o1.outcome {
                Outcome::Error(e) => if recovers(rf.error, e) {
                    out.outcome is Error || (out.outcome matches Outcome::Forward { input: i, .. } && i@ == input)
                } else {
                    out.outcome == o1.outcome
                },
                _ => with_input_of(out.outcome, o1.outcome, input),
            },
        Filter::Receive(rv) => {
            let n = if rv.count <= input.len() { rv.count as int } else { input.len() as int };
            d matches Derivation::Node(d1, o1, _, _) && derives(*rv.filter, request, state, input.subrange(n, input.len() as int), o1, *d1)
                && out.request_state == o1.request_state && match o1.outcome {
                    Outcome::Success(s) => out.outcome.is_success_of(input.subrange(0, n) + s@),
                    Outcome::Error(e) => out.outcome == Outcome::Error(e),
                    Outcome::Forward { input: i, forwarding } => out.outcome.is_forward_of(input.subrange(0, n) + i@, forwarding),
                }
        },
        Filter::Untuple(u) => d matches Derivation::Node(d1, o1, _, _) && derives(*u.0, request, state, input, o1, *d1)
            && out.request_state == o1.request_state && match o1.outcome {
                Outcome::Success(s) => out.outcome.is_success_of(spec_untuple(s@)),
                _ => out.outcome == o1.outcome,
            },
        Filter::Cors(c) => match crate::request::header_lookup(crate::request::header_views(request.headers@), crate::security::origin::origin_name()) {
            None => d matches Derivation::Node(d1, o1, _, _) && derives(*c.filter, request, state, input, o1, *d1)
                && out.request_state == o1.request_state && match o1.outcome {
                    Outcome::Success(_) => is_single_response(out.outcome),
                    _ => out.outcome == o1.outcome,
                },
            Some(origin) => if request.method == Method::Options {
                same && (out.outcome matches Outcome::Success(t) && t@.len() == 1 && (t@[0] matches Value::Response(x)
                    && x.status == crate::security::origin::spec_preflight_status(c, crate::request::header_views(request.headers@), origin)
                    && crate::request::header_views(x.headers@) == crate::security::origin::spec_preflight_response_headers(c, origin)
                    && x.body@.len() == 0))
            } else if crate::security::origin::spec_check_origin(c.origins, origin) is Disallowed || !c.methods@.contains(request.method) {
                same && (out.outcome matches Outcome::Success(t) && t@.len() == 1 && (t@[0] matches Value::Response(x) && x.status == 403))
            } else {
                d matches Derivation::Node(d1, o1, _, _) && derives(*c.filter, request, state, input, o1, *d1)
                    && out.request_state == o1.request_state && match o1.outcome {
                        Outcome::Success(_) => is_single_response(out.outcome),
                        _ => out.outcome == o1.outcome,
                    }
            },
        },
        Filter::Dynamic(shared) => derives(*shared.0, request, state, input, out, d),
    }
}

/// Whether running `f` on `request`, from `state` and with `input`, may end
/// in `out`: some derivation shows it.
pub open spec fn evaluates<H>(f: Filter<H>, request: Request, state: RequestState, input: Seq<Value>, out: RequestOutcome) -> bool {
    exists|d: Derivation| #[trigger] derives(f, request, state, input, out, d)
}

/// In every run of an alternative whose first branch forwards, the second
/// branch runs from the cursor the alternative started with, on the input
/// the first branch handed back.
pub proof fn lemma_alternative_backtracking<H>(
    f: Filter<H>,
    request: Request,
    state: RequestState,
    input: Seq<Value>,
    out: RequestOutcome,
    d: Derivation,
)
    requires
        f is Or,
        derives(f, request, state, input, out, d),
        d->Node_1.outcome is Forward,
    ensures
        ({
            let first = d->Node_1;
            let second_start = spec_reset(first.request_state, state.current_path_index);
            &&& second_start.current_path_index == state.current_path_index
            &&& second_start.body == first.request_state.body
            &&& derives(*f->Or_0.second, request, second_start, first.outcome->Forward_input@, d->Node_3, *d->Node_2)
        }),
{
}

/// In every run of an alternative whose first branch fails, the failure is
/// the outcome: an error (a trailing-slash redirect among them) is never
/// retried by the second branch.
pub proof fn lemma_alternative_keeps_errors<H>(
    f: Filter<H>,
    request: Request,
    state: RequestState,
    input: Seq<Value>,
    out: RequestOutcome,
    d: Derivation,
)
    requires
        f is Or,
        derives(f, request, state, input, out, d),
        d->Node_1.outcome is Error,
    ensures
        out == d->Node_1,
{
}

/// In every run of a recovery, an error whose type the recovery does not
/// name exactly (and that is not the envelope) comes out untouched, with the
/// state it came with.
pub proof fn lemma_recovery_passes_other_errors<H>(
    f: Filter<H>,
    request: Request,
    state: RequestState,
    input: Seq<Value>,
    out: RequestOutcome,
    d: Derivation,
)
    requires
        f is Recover,
        derives(f, request, state, input, out, d),
        d->Node_1.outcome is Error,
        !recovers(f->Recover_0.error, d->Node_1.outcome->Error_0),
    ensures
        out == d->Node_1,
{
}

impl<H: AsyncTryFn> Filter<H> {
    /// Runs the request through this filter: the run is one that
    /// [`evaluates`] admits. The state always comes back, with its cursor
    /// inside the path; a forward always hands back the very input it was
    /// given.
    pub fn execute(&self, request: &Request, request_state: RequestState, input: Tuple) -> (r: RequestOutcome)
        requires
            request.wf(),
            request_state.wf(request),
        ensures
            evaluates(*self, *request, request_state, input@, r),
            r.request_state.wf(request),
            r.outcome matches Outcome::Forward { input: i, .. } ==> i@ == input@,
        decreases self,
    {
        let ghost st0 = request_state;
        let ghost input_view = input@;
        let mut state = request_state;
        match self {
            Filter::Any => {
                let r = RequestOutcome { request_state: state, outcome: Outcome::empty_success() };
                proof {
                    assert(derives(*self, *request, st0, input_view, r, Derivation::Empty));
                }
                r
            },
            Filter::Never => {
                let r = RequestOutcome { request_state: state, outcome: with_input(Outcome::not_found(), input) };
                proof {
                    assert(derives(*self, *request, st0, input_view, r, Derivation::Empty));
                }
                r
            },
            Filter::Literal(value) => {
                let o = crate::path::match_literal(value, request, &mut state);
                let ghost leaf = o;
                let r = RequestOutcome { request_state: state, outcome: with_input(o, input) };
                proof {
                    assert(derives(*self, *request, st0, input_view, r, Derivation::Leaf(leaf)));
                }
                r
            },
            Filter::ParamStr => {
                let o = crate::path::match_param_str(request, &mut state);
                let ghost leaf = o;
                let r = RequestOutcome { request_state: state, outcome: with_input(o, input) };
                proof {
                    assert(derives(*self, *request, st0, input_view, r, Derivation::Leaf(leaf)));
                }
                r
            },
            Filter::Param => {
                let o = crate::path::match_param(request, &mut state);
                let ghost leaf = o;
                let r = RequestOutcome { request_state: state, outcome: with_input(o, input) };
                proof {
                    assert(derives(*self, *request, st0, input_view, r, Derivation::Leaf(leaf)));
                }
                r
            },
            Filter::End => {
                let o = crate::path::match_end(request, &state);
                let ghost leaf = o;
                let r = RequestOutcome { request_state: state, outcome: with_input(o, input) };
                proof {
                    assert(derives(*self, *request, st0, input_view, r, Derivation::Leaf(leaf)));
                }
                r
            },
            Filter::Tail => {
                let o = crate::path::match_tail(request, &mut state);
                let ghost leaf = o;
                let r = RequestOutcome { request_state: state, outcome: with_input(o, input) };
                proof {
                    assert(derives(*self, *request, st0, input_view, r, Derivation::Leaf(leaf)));
                }
                r
            },
            Filter::TailPath => {
                let o = crate::path::match_tail_path(request, &mut state);
                let ghost leaf = o;
                let r = RequestOutcome { request_state: state, outcome: with_input(o, input) };
                proof {
                    assert(derives(*self, *request, st0, input_view, r, Derivation::Leaf(leaf)));
                }
                r
            },
            Filter::Borrowing(v) => {
                let r = RequestOutcome { request_state: state, outcome: Outcome::Success(Tuple::one(v.duplicate())) };
                proof {
                    assert(derives(*self, *request, st0, input_view, r, Derivation::Empty));
                }
                r
            },
            Filter::Method(m) => {
                let o = match_method(*m, request);
                let ghost leaf = o;
                let r = RequestOutcome { request_state: state, outcome: with_input(o, input) };
                proof {
                    assert(derives(*self, *request, st0, input_view, r, Derivation::Leaf(leaf)));
                }
                r
            },
            Filter::ContentLengthLimit(limit) => {
                let o = check_content_length(*limit, request);
                let ghost leaf = o;
                let r = RequestOutcome { request_state: state, outcome: with_input(o, input) };
                proof {
                    assert(derives(*self, *request, st0, input_view, r, Derivation::Leaf(leaf)));
                }
                r
            },
            Filter::Body => {
                let o = take_body(&mut state);
                let ghost leaf = o;
                let r = RequestOutcome { request_state: state, outcome: with_input(o, input) };
                proof {
                    assert(derives(*self, *request, st0, input_view, r, Derivation::Leaf(leaf)));
                }
                r
            },
            Filter::Header(name) => {
                let o = match_header(name, request);
                let ghost leaf = o;
                let r = RequestOutcome { request_state: state, outcome: with_input(o, input) };
                proof {
                    assert(derives(*self, *request, st0, input_view, r, Derivation::Leaf(leaf)));
                }
                r
            },
            Filter::RequestMethod => {
                let r = RequestOutcome { request_state: state, outcome: Outcome::Success(Tuple::one(Value::Method(request.method))) };
                proof {
                    assert(derives(*self, *request, st0, input_view, r, Derivation::Empty));
                }
                r
            },
            Filter::FullPath => {
                let path = vstd::slice::slice_to_vec(request.full_path());
                let r = RequestOutcome { request_state: state, outcome: Outcome::Success(Tuple::one(Value::Bytes(path))) };
                proof {
                    assert(derives(*self, *request, st0, input_view, r, Derivation::Empty));
                }
                r
            },
            Filter::Uri => {
                let r = RequestOutcome { request_state: state, outcome: Outcome::Success(Tuple::one(request_uri(request))) };
                proof {
                    assert(derives(*self, *request, st0, input_view, r, Derivation::Empty));
                }
                r
            },
            Filter::Version => {
                let r = RequestOutcome { request_state: state, outcome: Outcome::Success(Tuple::one(Value::Version(request.version))) };
                proof {
                    assert(derives(*self, *request, st0, input_view, r, Derivation::Empty));
                }
                r
            },
            Filter::RemoteAddr => {
                let r = RequestOutcome { request_state: state, outcome: Outcome::Success(Tuple::one(Value::RemoteAddr(request.remote_addr))) };
                proof {
                    assert(derives(*self, *request, st0, input_view, r, Derivation::Empty));
                }
                r
            },
            Filter::SetHeader(name, value) => {
                let r = RequestOutcome { request_state: state, outcome: set_header_on_input(name, value, input) };
                proof {
                    assert(derives(*self, *request, st0, input_view, r, Derivation::Empty));
                }
                r
            },
            Filter::IfUnmodifiedSince => {
                let r = RequestOutcome { request_state: state, outcome: crate::cache::match_if_unmodified_since(request, input) };
                proof {
                    assert(derives(*self, *request, st0, input_view, r, Derivation::Empty));
                }
                r
            },
            Filter::And(a) => {
                let first = a.first.execute(request, state, Tuple::new());
                let ghost g1 = first;
                let ghost d1 = choose|d: Derivation| derives(*a.first, *request, st0, Seq::<Value>::empty(), g1, d);
                match a.after_first(input, first) {
                    Step::Done(done) => {
                        let r = done;
                        proof {
                            let d = Derivation::Node(Box::new(d1), g1, Box::new(Derivation::Empty), g1);
                            assert(derives(*self, *request, st0, input_view, r, d));
                        }
                        r
                    },
                    Step::Continue(st, (input, s1)) => {
                        let second = a.second.execute(request, st, input);
                        let ghost g2 = second;
                        let ghost d2 = choose|d: Derivation| derives(*a.second, *request, g1.request_state, input_view, g2, d);
                        let r = a.after_second(s1, second);
                        proof {
                            let d = Derivation::Node(Box::new(d1), g1, Box::new(d2), g2);
                            assert(derives(*self, *request, st0, input_view, r, d));
                        }
                        r
                    },
                }
            },
            Filter::Or(a) => {
                let path_index = state.current_path_index;
                let first = a.first.execute(request, state, input);
                let ghost g1 = first;
                let ghost d1 = choose|d: Derivation| derives(*a.first, *request, st0, input_view, g1, d);
                match a.after_first(path_index, first) {
                    Step::Done(done) => {
                        let r = done;
                        proof {
                            let d = Derivation::Node(Box::new(d1), g1, Box::new(Derivation::Empty), g1);
                            assert(derives(*self, *request, st0, input_view, r, d));
                        }
                        r
                    },
                    Step::Continue(st, (input, fw)) => {
                        let ghost i1 = input@;
                        let second = a.second.execute(request, st, input);
                        let ghost g2 = second;
                        let ghost d2 = choose|d: Derivation| derives(*a.second, *request, spec_reset(g1.request_state, path_index), i1, g2, d);
                        let r = a.after_second(path_index, fw, second);
                        proof {
                            let d = Derivation::Node(Box::new(d1), g1, Box::new(d2), g2);
                            assert(derives(*self, *request, st0, input_view, r, d));
                        }
                        r
                    },
                }
            },
            Filter::Handle(h) => {
                let inner = h.filter.execute(request, state, input);
                let ghost g1 = inner;
                let ghost d1 = choose|d: Derivation| derives(*h.filter, *request, st0, input_view, g1, d);
                let ghost d = Derivation::Node(Box::new(d1), g1, Box::new(Derivation::Empty), g1);
                match h.after_filter(inner) {
                    Step::Done(done) => {
                        let r = done;
                        proof {
                            assert(derives(*self, *request, st0, input_view, r, d));
                        }
                        r
                    },
                    Step::Continue(st, args) => {
                        let result = h.func.call(args);
                        let r = h.after_func(st, result);
                        proof {
                            assert(derives(*self, *request, st0, input_view, r, d));
                        }
                        r
                    },
                }
            },
            Filter::Then(t) => {
                let first = t.first.execute(request, state, Tuple::new());
                let ghost g1 = first;
                let ghost d1 = choose|d: Derivation| derives(*t.first, *request, st0, Seq::<Value>::empty(), g1, d);
                match t.after_first(input, first) {
                    Step::Done(done) => {
                        let r = done;
                        proof {
                            let d = Derivation::Node(Box::new(d1), g1, Box::new(Derivation::Empty), g1);
                            assert(derives(*self, *request, st0, input_view, r, d));
                        }
                        r
                    },
                    Step::Continue(st, (combined, n)) => {
                        let ghost c = combined@;
                        let second = t.second.execute(request, st, combined);
                        let ghost g2 = second;
                        let ghost d2 = choose|d: Derivation| derives(*t.second, *request, g1.request_state, c, g2, d);
                        let r = t.after_second(n, second);
                        proof {
                            let d = Derivation::Node(Box::new(d1), g1, Box::new(d2), g2);
                            assert(derives(*self, *request, st0, input_view, r, d));
                        }
                        r
                    },
                }
            },
            Filter::Recover(rc) => {
                let path_index = state.current_path_index;
                let inner = rc.filter.execute(request, state, input);
                let ghost g1 = inner;
                let ghost d1 = choose|d: Derivation| derives(*rc.filter, *request, st0, input_view, g1, d);
                let ghost d = Derivation::Node(Box::new(d1), g1, Box::new(Derivation::Empty), g1);
                match rc.after_filter(path_index, inner) {
                    Step::Done(done) => {
                        let r = done;
                        proof {
                            assert(derives(*self, *request, st0, input_view, r, d));
                        }
                        r
                    },
                    Step::Continue(st, e) => {
                        let result = rc.func.recover(e);
                        let r = rc.after_func(path_index, st, result);
                        proof {
                            assert(derives(*self, *request, st0, input_view, r, d));
                        }
                        r
                    },
                }
            },
            Filter::RecoverForward(rf) => {
                let inner = rf.filter.execute(request, state, Tuple::new());
                let ghost g1 = inner;
                let ghost d1 = choose|d: Derivation| derives(*rf.filter, *request, st0, Seq::<Value>::empty(), g1, d);
                let ghost d = Derivation::Node(Box::new(d1), g1, Box::new(Derivation::Empty), g1);
                match rf.after_filter(input, inner) {
                    Step::Done(done) => {
                        let r = done;
                        proof {
                            assert(derives(*self, *request, st0, input_view, r, d));
                        }
                        r
                    },
                    Step::Continue(st, (input, e)) => {
                        let result = rf.func.recover_forward(e);
                        let r = rf.after_func(input, st, result);
                        proof {
                            assert(derives(*self, *request, st0, input_view, r, d));
                        }
                        r
                    },
                }
            },
            Filter::Receive(rv) => {
                let (received, rest) = rv.split_input(input);
                let ghost rest_view = rest@;
                let inner = rv.filter.execute(request, state, rest);
                let ghost g1 = inner;
                let ghost d1 = choose|d: Derivation| derives(*rv.filter, *request, st0, rest_view, g1, d);
                let r = rv.after_filter(received, inner);
                proof {
                    let d = Derivation::Node(Box::new(d1), g1, Box::new(Derivation::Empty), g1);
                    assert(derives(*self, *request, st0, input_view, r, d));
                }
                r
            },
            Filter::Untuple(u) => {
                let inner = u.0.execute(request, state, input);
                let ghost g1 = inner;
                let ghost d1 = choose|d: Derivation| derives(*u.0, *request, st0, input_view, g1, d);
                let r = u.after_filter(inner);
                proof {
                    let d = Derivation::Node(Box::new(d1), g1, Box::new(Derivation::Empty), g1);
                    assert(derives(*self, *request, st0, input_view, r, d));
                }
                r
            },
            Filter::Dynamic(shared) => {
                let r = shared.0.execute(request, state, input);
                proof {
                    let d = choose|d: Derivation| derives(*shared.0, *request, st0, input_view, r, d);
                    assert(derives(*self, *request, st0, input_view, r, d));
                }
                r
            },
            Filter::Cors(c) => {
                let origin_header = crate::security::origin::origin_name_bytes();
                match request.header(origin_header.as_slice()) {
                    None => {
                        let inner = c.filter.execute(request, state, input);
                        let ghost g1 = inner;
                        let ghost d1 = choose|d: Derivation| derives(*c.filter, *request, st0, input_view, g1, d);
                        let r = c.after_inner_without_origin(inner);
                        proof {
                            let d = Derivation::Node(Box::new(d1), g1, Box::new(Derivation::Empty), g1);
                            assert(derives(*self, *request, st0, input_view, r, d));
                        }
                        r
                    },
                    Some(origin) => {
                        if request.method == Method::Options {
                            let response = c.preflight(request, origin);
                            let r = RequestOutcome { request_state: state, outcome: Outcome::Success(Tuple::one(Value::Response(response))) };
                            proof {
                                let d = Derivation::Empty;
                                assert(derives(*self, *request, st0, input_view, r, d));
                            }
                            r
                        } else {
                            match c.admission(request, origin) {
                                None => {
                                    let response = crate::security::origin::forbidden();
                                    let r = RequestOutcome { request_state: state, outcome: Outcome::Success(Tuple::one(Value::Response(response))) };
                                    proof {
                                        let d = Derivation::Empty;
                                        assert(derives(*self, *request, st0, input_view, r, d));
                                    }
                                    r
                                },
                                Some((value, vary)) => {
                                    let inner = c.filter.execute(request, state, input);
                                    let ghost g1 = inner;
                                    let ghost d1 = choose|d: Derivation| derives(*c.filter, *request, st0, input_view, g1, d);
                                    let r = c.after_inner_admitted(value, vary, inner);
                                    proof {
                                        let d = Derivation::Node(Box::new(d1), g1, Box::new(Derivation::Empty), g1);
                                        assert(derives(*self, *request, st0, input_view, r, d));
                                    }
                                    r
                                },
                            }
                        }
                    },
                }
            },
        }
    }
}

} // verus!
