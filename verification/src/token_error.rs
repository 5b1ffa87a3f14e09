use vstd::prelude::*;

use crate::token_meta::TokenMeta;

verus! {

/// What a reader reports when the input is malformed: the error, and the span
/// where it was found.
#[derive(Clone, Debug, PartialEq, Eq, PartialOrd, Ord, Hash)]
pub struct TokenError<E> {
    meta: TokenMeta,
    error: E,
}

impl<E> TokenError<E> {
    /// The span, in contracts.
    pub closed spec fn span(&self) -> TokenMeta {
        self.meta
    }

    /// The error, in contracts.
    pub closed spec fn cause(&self) -> E {
        self.error
    }

    /// The error `error`, found in the span `meta`.
    pub fn new(meta: TokenMeta, error: E) -> (r: Self)
        ensures
            r.span() == meta,
            r.cause() == error,
    {
        TokenError { meta: meta, error: error }
    }

    /// The span in which the error was found.
    pub fn meta(&self) -> (r: &TokenMeta)
        ensures
            *r == self.span(),
    {
        &self.meta
    }

    /// What was found wrong.
    pub fn error(&self) -> (r: &E)
        ensures
            *r == self.cause(),
    {
        &self.error
    }
}

} // verus!
