use vstd::prelude::*;

use crate::token_meta::TokenMeta;

verus! {

/// A classified piece of the input: what it is, and the span it covers.
#[derive(Clone, Debug, PartialEq, Eq, PartialOrd, Ord, Hash)]
pub struct Token<T> {
    meta: TokenMeta,
    value: T,
}

impl<T> Token<T> {
    /// The span, in contracts.
    pub closed spec fn span(&self) -> TokenMeta {
        self.meta
    }

    /// The classification, in contracts.
    pub closed spec fn payload(&self) -> T {
        self.value
    }

    /// A token of classification `value` that covers `meta`.
    pub fn new(meta: TokenMeta, value: T) -> (r: Self)
        ensures
            r.span() == meta,
            r.payload() == value,
    {
        Token { meta: meta, value: value }
    }

    /// The span that the token covers.
    pub fn meta(&self) -> (r: &TokenMeta)
        ensures
            *r == self.span(),
    {
        &self.meta
    }

    /// The span that the token covers, for the token.
    pub fn into_meta(self) -> (r: TokenMeta)
        ensures
            r == self.span(),
    {
        self.meta
    }

    /// What the token is.
    pub fn value(&self) -> (r: &T)
        ensures
            *r == self.payload(),
    {
        &self.value
    }

    /// What the token is, for the token.
    pub fn into_value(self) -> (r: T)
        ensures
            r == self.payload(),
    {
        self.value
    }
}

} // verus!
