//! Reasons for forwarding, and how reasons from alternatives combine.
use vstd::prelude::*;

verus! {

/// An HTTP request method.
#[derive(Clone, Copy, Debug, PartialEq, Eq, Structural)]
pub enum Method {
    Get,
    Post,
    Put,
    Delete,
    Head,
    Options,
    Connect,
    Patch,
    Trace,
    /// Any method outside the nine standard ones.
    Other,
}

/// The bit that stands for a standard method in [`AttemptedMethods`]; zero for `Other`.
pub open spec fn method_bit(m: Method) -> u16 {
    match m {
        Method::Get => 1,
        Method::Post => 2,
        Method::Put => 4,
        Method::Delete => 8,
        Method::Head => 16,
        Method::Options => 32,
        Method::Connect => 64,
        Method::Patch => 128,
        Method::Trace => 256,
        Method::Other => 0,
    }
}

impl Method {
    /// The method's name as it is written on the wire (`Other` has none).
    pub open spec fn spec_name(self) -> Seq<u8> {
        match self {
            Method::Get => seq![71u8, 69, 84],
            Method::Post => seq![80u8, 79, 83, 84],
            Method::Put => seq![80u8, 85, 84],
            Method::Delete => seq![68u8, 69, 76, 69, 84, 69],
            Method::Head => seq![72u8, 69, 65, 68],
            Method::Options => seq![79u8, 80, 84, 73, 79, 78, 83],
            Method::Connect => seq![67u8, 79, 78, 78, 69, 67, 84],
            Method::Patch => seq![80u8, 65, 84, 67, 72],
            Method::Trace => seq![84u8, 82, 65, 67, 69],
            Method::Other => seq![],
        }
    }

    pub fn name(&self) -> (r: Vec<u8>)
        ensures
            r@ == self.spec_name(),
    {
        match self {
            Method::Get => vec![71u8, 69, 84],
            Method::Post => vec![80u8, 79, 83, 84],
            Method::Put => vec![80u8, 85, 84],
            Method::Delete => vec![68u8, 69, 76, 69, 84, 69],
            Method::Head => vec![72u8, 69, 65, 68],
            Method::Options => vec![79u8, 80, 84, 73, 79, 78, 83],
            Method::Connect => vec![67u8, 79, 78, 78, 69, 67, 84],
            Method::Patch => vec![80u8, 65, 84, 67, 72],
            Method::Trace => vec![84u8, 82, 65, 67, 69],
            Method::Other => vec![],
        }
    }
}

/// A set of standard methods that were attempted, one bit per method.
#[derive(Clone, Copy, Debug, PartialEq, Eq, Structural)]
pub struct AttemptedMethods(pub u16);

impl AttemptedMethods {
    /// Whether `m` is in the set.
    pub open spec fn has(self, m: Method) -> bool {
        m != Method::Other && self.0 & method_bit(m) != 0
    }

    /// The methods in the set.
    pub open spec fn methods(self) -> Set<Method> {
        Set::new(|m: Method| self.has(m))
    }

    /// The empty set.
    pub fn none() -> (r: Self)
        ensures
            r.0 == 0,
            r.methods() == Set::<Method>::empty(),
    {
        let r = AttemptedMethods(0);
        assert forall|m: Method| !r.has(m) by {
            lemma_and_zero(method_bit(m));
        }
        assert(r.methods() =~= Set::<Method>::empty());
        r
    }

    /// The set holding `m` alone (empty for `Other`).
    pub fn of(m: Method) -> (r: Self)
        ensures
            r.0 == method_bit(m),
            forall|x: Method| r.has(x) <==> (x == m && m != Method::Other),
    {
        let bit: u16 = match m {
            Method::Get => 1,
            Method::Post => 2,
            Method::Put => 4,
            Method::Delete => 8,
            Method::Head => 16,
            Method::Options => 32,
            Method::Connect => 64,
            Method::Patch => 128,
            Method::Trace => 256,
            Method::Other => 0,
        };
        let r = AttemptedMethods(bit);
        assert forall|x: Method| r.has(x) <==> (x == m && m != Method::Other) by {
            lemma_bits_of_methods(x, m);
        }
        r
    }

    /// The union of two sets.
    pub fn union(self, other: Self) -> (r: Self)
        ensures
            r.0 == self.0 | other.0,
            r.methods() == self.methods().union(other.methods()),
    {
        let r = AttemptedMethods(self.0 | other.0);
        proof {
            lemma_union_has(self, other);
        }
        assert(r.methods() =~= self.methods().union(other.methods()));
        r
    }

    /// The methods of the set, in the order GET, POST, PUT, DELETE, HEAD,
    /// OPTIONS, CONNECT, PATCH, TRACE, joined by `", "` (the value of an
    /// `Allow` header).
    pub fn into_header_value(self) -> (r: Vec<u8>)
        ensures
            r@ == allow_value(self),
    {
        let order = all_methods();
        let mut out: Vec<u8> = Vec::new();
        let mut i: usize = 0;
        while i < 9
            invariant
                0 <= i <= 9,
                order@ == all_methods_spec(),
                out@ == allow_prefix(self, i as int),
            decreases 9 - i,
        {
            let m = order[i];
            let bit = AttemptedMethods::of(m);
            if self.0 & bit.0 != 0 {
                let name = m.name();
                if out.len() != 0 {
                    out.push(44u8);
                    out.push(32u8);
                }
                let mut j: usize = 0;
                let ghost before = out@;
                while j < name.len()
                    invariant
                        0 <= j <= name@.len(),
                        out@ == before + name@.subrange(0, j as int),
                    decreases name@.len() - j,
                {
                    out.push(name[j]);
                    j += 1;
                    assert(name@.subrange(0, j as int) =~= name@.subrange(0, j - 1) + seq![name@[j - 1]]);
                }
                assert(name@.subrange(0, name@.len() as int) =~= name@);
            }
            proof {
                lemma_allow_prefix_step(self, i as int);
            }
            i += 1;
        }
        out
    }
}

/// The nine standard methods, in the order an `Allow` header lists them.
pub open spec fn all_methods_spec() -> Seq<Method> {
    seq![
        Method::Get,
        Method::Post,
        Method::Put,
        Method::Delete,
        Method::Head,
        Method::Options,
        Method::Connect,
        Method::Patch,
        Method::Trace,
    ]
}

fn all_methods() -> (r: Vec<Method>)
    ensures
        r@ == all_methods_spec(),
{
    let r = vec![
        Method::Get,
        Method::Post,
        Method::Put,
        Method::Delete,
        Method::Head,
        Method::Options,
        Method::Connect,
        Method::Patch,
        Method::Trace,
    ];
    assert(r@ =~= all_methods_spec());
    r
}

/// The `Allow` value built from the first `n` standard methods.
pub open spec fn allow_prefix(a: AttemptedMethods, n: int) -> Seq<u8>
    decreases n,
{
    if n <= 0 {
        seq![]
    } else {
        let before = allow_prefix(a, n - 1);
        let m = all_methods_spec()[n - 1];
        if a.0 & method_bit(m) != 0 {
            if before.len() == 0 {
                m.spec_name()
            } else {
                before + seq![44u8, 32u8] + m.spec_name()
            }
        } else {
            before
        }
    }
}

/// The `Allow` value of a set: its methods' names in order, comma separated.
pub open spec fn allow_value(a: AttemptedMethods) -> Seq<u8> {
    allow_prefix(a, 9)
}

proof fn lemma_allow_prefix_step(a: AttemptedMethods, i: int)
    requires
        0 <= i < 9,
    ensures
        allow_prefix(a, i + 1) == ({
            let before = allow_prefix(a, i);
            let m = all_methods_spec()[i];
            if a.0 & method_bit(m) != 0 {
                if before.len() == 0 {
                    m.spec_name()
                } else {
                    before + seq![44u8, 32u8] + m.spec_name()
                }
            } else {
                before
            }
        }),
{
}

proof fn lemma_and_zero(b: u16)
    ensures
        0u16 & b == 0,
{
    assert(0u16 & b == 0) by (bit_vector);
}

proof fn lemma_bits_of_methods(x: Method, m: Method)
    ensures
        (x != Method::Other && method_bit(m) & method_bit(x) != 0) <==> (x == m && m != Method::Other),
{
    let a = method_bit(m);
    let b = method_bit(x);
    assert((a == 0 || a == 1 || a == 2 || a == 4 || a == 8 || a == 16 || a == 32 || a == 64 || a == 128
        || a == 256) && (b == 0 || b == 1 || b == 2 || b == 4 || b == 8 || b == 16 || b == 32 || b == 64
        || b == 128 || b == 256) ==> ((a & b != 0) <==> (a == b && a != 0))) by (bit_vector);
}

proof fn lemma_union_has(a: AttemptedMethods, b: AttemptedMethods)
    ensures
        forall|m: Method| #[trigger] AttemptedMethods(a.0 | b.0).has(m) <==> a.has(m) || b.has(m),
{
    assert forall|m: Method| #[trigger] AttemptedMethods(a.0 | b.0).has(m) <==> a.has(m) || b.has(m) by {
        let x = a.0;
        let y = b.0;
        let k = method_bit(m);
        assert((x | y) & k != 0 <==> (x & k != 0 || y & k != 0)) by (bit_vector);
    }
}

/// Why a step did not match.
#[derive(Clone, Copy, Debug, PartialEq, Eq, Structural)]
pub enum Forwarding {
    /// The resource was not found (a 404 by default).
    NotFound,
    /// The resource exists but not for the methods that were tried (a 405 by default).
    MethodNotAllowed(AttemptedMethods),
}

/// How two forwarding reasons combine: `NotFound` is the identity, and two
/// `MethodNotAllowed` unite their sets.
pub open spec fn spec_combine(a: Forwarding, b: Forwarding) -> Forwarding {
    match a {
        Forwarding::NotFound => b,
        Forwarding::MethodNotAllowed(x) => match b {
            Forwarding::NotFound => a,
            Forwarding::MethodNotAllowed(y) => Forwarding::MethodNotAllowed(AttemptedMethods(x.0 | y.0)),
        },
    }
}

impl Forwarding {
    /// Combines the reasons of two alternatives that both forwarded.
    pub fn combine(self, other: Self) -> (r: Self)
        ensures
            r == spec_combine(self, other),
    {
        match self {
            Forwarding::NotFound => other,
            Forwarding::MethodNotAllowed(attempted) => match other {
                Forwarding::NotFound => Forwarding::MethodNotAllowed(attempted),
                Forwarding::MethodNotAllowed(other_attempted) => {
                    Forwarding::MethodNotAllowed(attempted.union(other_attempted))
                },
            },
        }
    }
}

/// `NotFound` is the identity of `combine`, on either side.
pub proof fn lemma_combine_identity(x: Forwarding)
    ensures
        spec_combine(Forwarding::NotFound, x) == x,
        spec_combine(x, Forwarding::NotFound) == x,
{
}

/// Two `MethodNotAllowed` reasons combine into the union of their sets.
pub proof fn lemma_combine_union(s1: AttemptedMethods, s2: AttemptedMethods)
    ensures
        spec_combine(Forwarding::MethodNotAllowed(s1), Forwarding::MethodNotAllowed(s2))
            == Forwarding::MethodNotAllowed(AttemptedMethods(s1.0 | s2.0)),
        AttemptedMethods(s1.0 | s2.0).methods() == s1.methods().union(s2.methods()),
{
    lemma_union_has(s1, s2);
    assert(AttemptedMethods(s1.0 | s2.0).methods() =~= s1.methods().union(s2.methods()));
}

/// `combine` is associative.
pub proof fn lemma_combine_associative(x: Forwarding, y: Forwarding, z: Forwarding)
    ensures
        spec_combine(spec_combine(x, y), z) == spec_combine(x, spec_combine(y, z)),
{
    if let (Forwarding::MethodNotAllowed(a), Forwarding::MethodNotAllowed(b), Forwarding::MethodNotAllowed(c)) = (x, y, z) {
        let (p, q, r) = (a.0, b.0, c.0);
        assert((p | q) | r == p | (q | r)) by (bit_vector);
    }
}

/// `combine` is commutative.
pub proof fn lemma_combine_commutative(x: Forwarding, y: Forwarding)
    ensures
        spec_combine(x, y) == spec_combine(y, x),
{
    if let (Forwarding::MethodNotAllowed(a), Forwarding::MethodNotAllowed(b)) = (x, y) {
        let (p, q) = (a.0, b.0);
        assert(p | q == q | p) by (bit_vector);
    }
}

} // verus!
