//! Errors: a closed envelope whose variant names the error's type.
use vstd::prelude::*;
use crate::body::{BodyError, ContentLengthError};
use crate::path::Redirect;
use crate::response::Response;
use crate::values::Value;

verus! {

/// An error that ends the current alternative, unless a recovery names its type.
#[derive(Debug)]
pub enum FilterError {
    /// The path needs its trailing slash removed.
    Redirect(Redirect),
    /// The declared body length exceeded the limit.
    ContentLength(ContentLengthError),
    /// The transport failed to deliver the body.
    Body(BodyError),
    /// An `If-Modified-Since` value that is not an HTTP date.
    InvalidIfUnmodifiedSince { value: Vec<u8> },
    /// An error of a type defined by the application, told apart by `tag`.
    Custom { tag: u64, payload: Value },
}

/// The error types a recovery can name; `Any` is the envelope itself and
/// names every error.
#[derive(Clone, Copy, Debug, PartialEq, Eq, Structural)]
pub enum Recoverable {
    Redirect,
    ContentLength,
    Body,
    InvalidIfUnmodifiedSince,
    Custom(u64),
    Any,
}

/// Whether a recovery for `target` intercepts `error`: only when `target` is
/// exactly the error's type, or the envelope.
pub open spec fn recovers(target: Recoverable, error: FilterError) -> bool {
    target == Recoverable::Any || error.spec_kind() == target
}

impl FilterError {
    /// The type of this error; never `Any`.
    pub open spec fn spec_kind(&self) -> Recoverable {
        match self {
            FilterError::Redirect(_) => Recoverable::Redirect,
            FilterError::ContentLength(_) => Recoverable::ContentLength,
            FilterError::Body(_) => Recoverable::Body,
            FilterError::InvalidIfUnmodifiedSince { .. } => Recoverable::InvalidIfUnmodifiedSince,
            FilterError::Custom { tag, .. } => Recoverable::Custom(*tag),
        }
    }

    pub fn kind(&self) -> (r: Recoverable)
        ensures
            r == self.spec_kind(),
    {
        match self {
            FilterError::Redirect(_) => Recoverable::Redirect,
            FilterError::ContentLength(_) => Recoverable::ContentLength,
            FilterError::Body(_) => Recoverable::Body,
            FilterError::InvalidIfUnmodifiedSince { .. } => Recoverable::InvalidIfUnmodifiedSince,
            FilterError::Custom { tag, .. } => Recoverable::Custom(*tag),
        }
    }

    /// Hands the error back as `Ok` when `target` names its type exactly (or
    /// is `Any`), and untouched as `Err` otherwise.
    pub fn downcast(self, target: Recoverable) -> (r: Result<FilterError, FilterError>)
        ensures
            recovers(target, self) ==> r == Ok::<FilterError, FilterError>(self),
            !recovers(target, self) ==> r == Err::<FilterError, FilterError>(self),
    {
        let kind = self.kind();
        if target == Recoverable::Any || kind == target {
            Ok(self)
        } else {
            Err(self)
        }
    }

    /// The response for an error that nobody recovered: a permanent redirect
    /// for `Redirect`, 413 for a body too large, 400 for a bad date, 500 for
    /// the rest.
    pub fn into_response(self) -> (r: Response)
        ensures
            r.status == match self {
                FilterError::Redirect(_) => 308u16,
                FilterError::ContentLength(_) => 413u16,
                FilterError::InvalidIfUnmodifiedSince { .. } => 400u16,
                _ => 500u16,
            },
            self matches FilterError::Redirect(red) ==> crate::request::header_views(r.headers@).last() == (
                seq![108u8, 111, 99, 97, 116, 105, 111, 110],
                red.location@,
            ),
    {
        match self {
            FilterError::Redirect(red) => {
                let name = vec![108u8, 111, 99, 97, 116, 105, 111, 110];
                assert(name@ =~= seq![108u8, 111, 99, 97, 116, 105, 111, 110]);
                crate::response::default_response(308).set_header(name, red.location)
            },
            FilterError::ContentLength(_) => crate::response::default_response(413),
            FilterError::InvalidIfUnmodifiedSince { .. } => crate::response::default_response(400),
            _ => crate::response::default_response(500),
        }
    }
}

/// Errors of two different types are never both intercepted by a recovery
/// that names one exact type: each recovery in a chain sees only its own.
pub proof fn lemma_recovery_exact(t1: Recoverable, t2: Recoverable, error: FilterError)
    requires
        t1 != Recoverable::Any,
        t2 != Recoverable::Any,
        t1 != t2,
    ensures
        !(recovers(t1, error) && recovers(t2, error)),
        recovers(Recoverable::Any, error),
{
}

} // verus!
