//! Strict transport security.
use vstd::prelude::*;
use crate::filter::Filter;

verus! {

/// Extra directives of the `Strict-Transport-Security` header.
#[derive(Clone, Copy, Debug, PartialEq, Eq, Structural)]
pub enum Directives {
    /// No extra directive.
    Plain,
    /// Adds `includeSubDomains`.
    IncludeSubDomains,
    /// Adds `includeSubDomains` and `preload`.
    Preload,
}

/// The HSTS policy.
#[derive(Clone, Copy, Debug)]
pub struct Config {
    /// How long a browser remembers the policy, in whole seconds.
    pub max_age: u64,
    pub directives: Directives,
}

/// The decimal digits of `n`.
pub open spec fn decimal(n: nat) -> Seq<u8>
    decreases n,
{
    if n < 10 {
        seq![(n + 48) as u8]
    } else {
        decimal(n / 10).push((n % 10 + 48) as u8)
    }
}

/// `max-age=`
pub open spec fn max_age_prefix() -> Seq<u8> {
    seq![109u8, 97, 120, 45, 97, 103, 101, 61]
}

/// `; includeSubDomains`
pub open spec fn include_sub_domains() -> Seq<u8> {
    seq![59u8, 32, 105, 110, 99, 108, 117, 100, 101, 83, 117, 98, 68, 111, 109, 97, 105, 110, 115]
}

/// `; preload`
pub open spec fn preload() -> Seq<u8> {
    seq![59u8, 32, 112, 114, 101, 108, 111, 97, 100]
}

/// The header value for a policy.
pub open spec fn spec_header_value(c: Config) -> Seq<u8> {
    let base = max_age_prefix() + decimal(c.max_age as nat);
    match c.directives {
        Directives::Plain => base,
        Directives::IncludeSubDomains => base + include_sub_domains(),
        Directives::Preload => base + include_sub_domains() + preload(),
    }
}

fn push_all(out: &mut Vec<u8>, s: &Vec<u8>)
    ensures
        final(out)@ == old(out)@ + s@,
{
    let mut i: usize = 0;
    let ghost start = out@;
    while i < s.len()
        invariant
            0 <= i <= s@.len(),
            out@ == start + s@.subrange(0, i as int),
        decreases s@.len() - i,
    {
        out.push(s[i]);
        i += 1;
        assert(s@.subrange(0, i as int) =~= s@.subrange(0, i - 1).push(s@[i - 1]));
    }
    assert(s@.subrange(0, s@.len() as int) =~= s@);
}

pub fn decimal_digits(n: u64) -> (r: Vec<u8>)
    ensures
        r@ == decimal(n as nat),
    decreases n,
{
    if n < 10 {
        let r = vec![(n as u8) + 48];
        assert(r@ =~= decimal(n as nat));
        r
    } else {
        let mut r = decimal_digits(n / 10);
        r.push((n % 10) as u8 + 48);
        r
    }
}

impl Config {
    /// The `Strict-Transport-Security` value: `max-age=` and the seconds,
    /// then the directives.
    pub fn header_value(&self) -> (r: Vec<u8>)
        ensures
            r@ == spec_header_value(*self),
    {
        let mut out = vec![109u8, 97, 120, 45, 97, 103, 101, 61];
        assert(out@ =~= max_age_prefix());
        push_all(&mut out, &decimal_digits(self.max_age));
        match self.directives {
            Directives::Plain => {},
            Directives::IncludeSubDomains => {
                let d = vec![59u8, 32, 105, 110, 99, 108, 117, 100, 101, 83, 117, 98, 68, 111, 109, 97, 105, 110, 115];
                assert(d@ =~= include_sub_domains());
                push_all(&mut out, &d);
            },
            Directives::Preload => {
                let d = vec![59u8, 32, 105, 110, 99, 108, 117, 100, 101, 83, 117, 98, 68, 111, 109, 97, 105, 110, 115];
                assert(d@ =~= include_sub_domains());
                push_all(&mut out, &d);
                let p = vec![59u8, 32, 112, 114, 101, 108, 111, 97, 100];
                assert(p@ =~= preload());
                push_all(&mut out, &p);
            },
        }
        out
    }
}

/// `strict-transport-security`
pub open spec fn hsts_name() -> Seq<u8> {
    seq![115u8, 116, 114, 105, 99, 116, 45, 116, 114, 97, 110, 115, 112, 111, 114, 116, 45, 115, 101, 99, 117, 114, 105, 116, 121]
}

/// A filter setting `Strict-Transport-Security` for `config` on the response
/// it gets as input.
pub fn hsts<H>(config: Config) -> (r: Filter<H>)
    ensures
        r matches Filter::SetHeader(n, v) && n@ == hsts_name() && v@ == spec_header_value(config),
{
    let n = vec![115u8, 116, 114, 105, 99, 116, 45, 116, 114, 97, 110, 115, 112, 111, 114, 116, 45, 115, 101, 99, 117, 114, 105, 116, 121];
    assert(n@ =~= hsts_name());
    Filter::SetHeader(n, config.header_value())
}

} // verus!
