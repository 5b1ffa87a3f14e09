use vstd::prelude::*;
use vstd::std_specs::convert::FromSpecImpl;

verus! {

/// What one reader reports for one attempt.
#[derive(Clone, Debug, PartialEq, Eq, PartialOrd, Ord, Hash)]
pub enum ReaderResult<T, E> {
    /// Characters were consumed and this token stands for them.
    Token(T),
    /// The input is malformed: tokenization ends with this error.
    Error(E),
    /// Characters were consumed and nothing stands for them.
    Empty,
    /// Nothing was consumed: the next reader is to try.
    NoMatch,
}

impl<T, E> From<Result<T, E>> for ReaderResult<T, E> {
    fn from(result: Result<T, E>) -> (r: Self) {
        match result {
            Ok(value) => ReaderResult::Token(value),
            Err(error) => ReaderResult::Error(error),
        }
    }
}

impl<T, E> FromSpecImpl<Result<T, E>> for ReaderResult<T, E> {
    open spec fn obeys_from_spec() -> bool {
        true
    }

    open spec fn from_spec(result: Result<T, E>) -> Self {
        match result {
            Ok(value) => ReaderResult::Token(value),
            Err(error) => ReaderResult::Error(error),
        }
    }
}

impl<T, E> From<Option<T>> for ReaderResult<T, E> {
    fn from(option: Option<T>) -> (r: Self) {
        match option {
            Some(value) => ReaderResult::Token(value),
            None => ReaderResult::NoMatch,
        }
    }
}

impl<T, E> FromSpecImpl<Option<T>> for ReaderResult<T, E> {
    open spec fn obeys_from_spec() -> bool {
        true
    }

    open spec fn from_spec(option: Option<T>) -> Self {
        match option {
            Some(value) => ReaderResult::Token(value),
            None => ReaderResult::NoMatch,
        }
    }
}

} // verus!
