use vstd::prelude::*;

verus! {

/// The broad classes of tokens that most grammars share.
#[derive(Debug, Copy, Clone, Hash, PartialEq, Eq)]
pub enum Kind {
    Str,
    Char,
    Symbol,
    Syntax,
    Number,
}

} // verus!
