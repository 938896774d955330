//! Ordered lists of values that flow between filters.
use vstd::prelude::*;
use crate::body::BytesBuf;
use crate::forward::Method;
use crate::request::{RemoteAddr, Version};
use crate::response::Response;

verus! {

/// One value produced or consumed by a filter.
#[derive(Debug)]
pub enum Value {
    Bool(bool),
    Int(i64),
    Text(String),
    Bytes(Vec<u8>),
    /// The components of a sanitized path.
    Path(Vec<Vec<u8>>),
    Body(BytesBuf),
    Method(Method),
    /// A point in time, in whole seconds since the Unix epoch.
    Time(u64),
    Version(Version),
    RemoteAddr(RemoteAddr),
    /// A request URI: its path and its query, if any.
    Uri(Vec<u8>, Option<Vec<u8>>),
    Response(Response),
    /// A nested list, flattened by `untuple`.
    List(Tuple),
}

/// An ordered list of values: the input or the success of a filter.
#[derive(Debug)]
pub struct Tuple {
    pub items: Vec<Value>,
}

impl View for Tuple {
    type V = Seq<Value>;

    open spec fn view(&self) -> Seq<Value> {
        self.items@
    }
}

/// Appending one list to another.
pub open spec fn spec_append(a: Seq<Value>, b: Seq<Value>) -> Seq<Value> {
    a + b
}

/// Splitting a list into its first `n` values and the rest.
pub open spec fn spec_split(t: Seq<Value>, n: int) -> (Seq<Value>, Seq<Value>) {
    (t.subrange(0, n), t.subrange(n, t.len() as int))
}

/// What a list turns into when it stands alone: its only value if it has
/// exactly one, else the list itself, nested.
pub open spec fn spec_into_inner(t: Tuple) -> Value {
    if t@.len() == 1 {
        t@[0]
    } else {
        Value::List(t)
    }
}

/// Splitting an appended list at the length of its first part gives back
/// both parts; appending the empty list changes nothing.
pub proof fn lemma_split_append(a: Seq<Value>, b: Seq<Value>)
    ensures
        spec_split(spec_append(a, b), a.len() as int) == (a, b),
        spec_append(a, Seq::<Value>::empty()) == a,
{
    assert(spec_append(a, b).subrange(0, a.len() as int) =~= a);
    assert(spec_append(a, b).subrange(a.len() as int, spec_append(a, b).len() as int) =~= b);
    assert(spec_append(a, Seq::<Value>::empty()) =~= a);
}

/// Appending a list to the split parts of another gives that list back.
pub proof fn lemma_append_split(t: Seq<Value>, n: int)
    requires
        0 <= n <= t.len(),
    ensures
        spec_append(spec_split(t, n).0, spec_split(t, n).1) == t,
{
    assert(spec_append(spec_split(t, n).0, spec_split(t, n).1) =~= t);
}

impl Tuple {
    /// The empty list.
    pub fn new() -> (r: Tuple)
        ensures
            r@ == Seq::<Value>::empty(),
    {
        Tuple { items: Vec::new() }
    }

    /// The list holding `v` alone.
    pub fn one(v: Value) -> (r: Tuple)
        ensures
            r@ == seq![v],
    {
        let mut items = Vec::new();
        items.push(v);
        Tuple { items }
    }

    pub fn len(&self) -> (r: usize)
        ensures
            r == self@.len(),
    {
        self.items.len()
    }

    /// Appends `ending` after the values of this list.
    pub fn append(self, ending: Tuple) -> (r: Tuple)
        ensures
            r@ == spec_append(self@, ending@),
    {
        let mut items = self.items;
        let mut rest = ending.items;
        items.append(&mut rest);
        Tuple { items }
    }

    /// Splits a list into its first `at` values and the rest; the inverse of `append`.
    pub fn remove(appended: Tuple, at: usize) -> (r: (Tuple, Tuple))
        requires
            at <= appended@.len(),
        ensures
            (r.0@, r.1@) == spec_split(appended@, at as int),
    {
        let mut items = appended.items;
        let rest = items.split_off(at);
        (Tuple { items }, Tuple { items: rest })
    }

    /// Adds one value at the end.
    pub fn append_one(self, elem: Value) -> (r: Tuple)
        ensures
            r@ == self@.push(elem),
    {
        let mut items = self.items;
        items.push(elem);
        Tuple { items }
    }

    /// Takes the last value off.
    pub fn remove_one(self) -> (r: (Tuple, Value))
        requires
            self@.len() > 0,
        ensures
            r.0@ == self@.drop_last(),
            r.1 == self@.last(),
    {
        let mut items = self.items;
        let last = items.pop().unwrap();
        (Tuple { items }, last)
    }

    /// Adds one value at the front.
    pub fn push_one(self, elem: Value) -> (r: Tuple)
        ensures
            r@ == seq![elem] + self@,
    {
        let mut items = self.items;
        items.insert(0, elem);
        assert(items@ =~= seq![elem] + self@);
        Tuple { items }
    }

    /// Takes the first value off.
    pub fn pop_one(self) -> (r: (Tuple, Value))
        requires
            self@.len() > 0,
        ensures
            r.0@ == self@.drop_first(),
            r.1 == self@[0],
    {
        let mut items = self.items;
        let first = items.remove(0);
        assert(items@ =~= self@.drop_first());
        (Tuple { items }, first)
    }

    /// Its only value for a one-value list; else the list itself, nested.
    pub fn into_inner(self) -> (r: Value)
        ensures
            r == spec_into_inner(self),
    {
        if self.items.len() == 1 {
            let mut items = self.items;
            items.pop().unwrap()
        } else {
            Value::List(self)
        }
    }

    /// The one-value list of `inner`; the inverse of `into_inner` on such lists.
    pub fn from_inner(inner: Value) -> (r: Tuple)
        ensures
            r@ == seq![inner],
            spec_into_inner(r) == inner,
    {
        Tuple::one(inner)
    }
}

/// Two values hold the same data.
pub open spec fn same_value(a: Value, b: Value) -> bool
    decreases a,
{
    match a {
        Value::Bool(x) => b == Value::Bool(x),
        Value::Int(x) => b == Value::Int(x),
        Value::Text(x) => b matches Value::Text(y) && x@ == y@,
        Value::Bytes(x) => b matches Value::Bytes(y) && x@ == y@,
        Value::Path(x) => b matches Value::Path(y) && crate::body::chunk_views(x@) == crate::body::chunk_views(y@),
        Value::Body(x) => b matches Value::Body(y) && x@ == y@ && x.wf() == y.wf(),
        Value::Method(x) => b == Value::Method(x),
        Value::Time(x) => b == Value::Time(x),
        Value::Version(x) => b == Value::Version(x),
        Value::RemoteAddr(x) => b == Value::RemoteAddr(x),
        Value::Uri(p, q) => b matches Value::Uri(p2, q2) && p@ == p2@ && crate::security::origin::opt_bytes(q)
            == crate::security::origin::opt_bytes(q2),
        Value::Response(x) => b matches Value::Response(y) && x.status == y.status
            && crate::request::header_views(x.headers@) == crate::request::header_views(y.headers@) && x.body@ == y.body@,
        Value::List(x) => b matches Value::List(y) && x.items@.len() == y.items@.len()
            && forall|i: int| 0 <= i < x.items@.len() ==> same_value(#[trigger] x.items@[i], y.items@[i]),
    }
}

/// Two lists hold the same data, value by value.
pub open spec fn same_values(a: Seq<Value>, b: Seq<Value>) -> bool {
    a.len() == b.len() && forall|i: int| 0 <= i < a.len() ==> same_value(#[trigger] a[i], b[i])
}

fn copy_bytes(v: &Vec<u8>) -> (r: Vec<u8>)
    ensures
        r@ == v@,
{
    let r = v.clone();
    assert(r@ =~= v@);
    r
}

fn copy_opt_bytes(v: &Option<Vec<u8>>) -> (r: Option<Vec<u8>>)
    ensures
        crate::security::origin::opt_bytes(r) == crate::security::origin::opt_bytes(*v),
{
    match v {
        Some(b) => Some(copy_bytes(b)),
        None => None,
    }
}

impl Value {
    /// A second value holding the same data.
    pub fn duplicate(&self) -> (r: Value)
        ensures
            same_value(*self, r),
        decreases self,
    {
        match self {
            Value::Bool(x) => Value::Bool(*x),
            Value::Int(x) => Value::Int(*x),
            Value::Text(x) => Value::Text(x.clone()),
            Value::Bytes(x) => Value::Bytes(copy_bytes(x)),
            Value::Path(x) => {
                let mut parts: Vec<Vec<u8>> = Vec::new();
                let mut i: usize = 0;
                while i < x.len()
                    invariant
                        0 <= i <= x@.len(),
                        parts@.len() == i,
                        forall|j: int| 0 <= j < i ==> #[trigger] parts@[j]@ == x@[j]@,
                    decreases x@.len() - i,
                {
                    parts.push(copy_bytes(&x[i]));
                    i += 1;
                }
                assert(crate::body::chunk_views(parts@) =~= crate::body::chunk_views(x@));
                Value::Path(parts)
            },
            Value::Body(x) => Value::Body(x.duplicate()),
            Value::Method(x) => Value::Method(*x),
            Value::Time(x) => Value::Time(*x),
            Value::Version(x) => Value::Version(*x),
            Value::RemoteAddr(x) => Value::RemoteAddr(*x),
            Value::Uri(p, q) => Value::Uri(copy_bytes(p), copy_opt_bytes(q)),
            Value::Response(x) => Value::Response(x.duplicate()),
            Value::List(x) => {
                let mut items: Vec<Value> = Vec::new();
                let mut i: usize = 0;
                while i < x.items.len()
                    invariant
                        0 <= i <= x.items@.len(),
                        *self == Value::List(*x),
                        items@.len() == i,
                        forall|j: int| 0 <= j < i ==> same_value(#[trigger] x.items@[j], items@[j]),
                    decreases x.items@.len() - i,
                {
                    proof {
                        let t = (*self)->List_0;
                        assert(decreases_to!(*self => (*self)->List_0));
                        assert(decreases_to!(t => t.items));
                        assert(decreases_to!(t.items => t.items@));
                        assert(decreases_to!(t.items@ => t.items@[i as int]));
                    }
                    let v = x.items[i].duplicate();
                    items.push(v);
                    i += 1;
                }
                Value::List(Tuple { items })
            },
        }
    }
}

} // verus!
