use vstd::prelude::*;

use crate::state::{after_bounds, after_counts_newlines, Position, State};

verus! {

/// What a token covers: the offsets, columns and lines of its first character
/// and of the position right after its last one.
pub struct Span {
    pub index_start: nat,
    pub index_end: nat,
    pub col_start: nat,
    pub col_end: nat,
    pub line_start: nat,
    pub line_end: nat,
}

impl Span {
    /// The span from the position a reader started at to the position it
    /// stopped at.
    pub open spec fn between(start: Position, end: Position) -> Span {
        Span {
            index_start: start.index,
            index_end: end.index,
            col_start: start.col,
            col_end: end.col,
            line_start: start.row,
            line_end: end.row,
        }
    }

    /// A span covers at least one character and does not end on an earlier
    /// line than it starts on.
    pub open spec fn valid(self) -> bool {
        &&& self.index_end > self.index_start
        &&& self.line_end >= self.line_start
    }

    /// Where the span starts, as a position.
    pub open spec fn first(self) -> Position {
        Position { index: self.index_start, row: self.line_start, col: self.col_start }
    }

    /// Where the span ends, as a position.
    pub open spec fn last(self) -> Position {
        Position { index: self.index_end, row: self.line_end, col: self.col_end }
    }
}

/// The span of a token that a reader built by consuming `chars`, one at least,
/// from `start` is valid and as long as `chars`, it covers as many line
/// breaks as there are among `chars`, and consuming `chars` again from its
/// start gives its end: offset, line and column.
pub proof fn span_of_reading(start: Position, chars: Seq<char>)
    requires
        chars.len() > 0,
    ensures
        Span::between(start, start.after(chars)).valid(),
        Span::between(start, start.after(chars)).index_end - Span::between(
            start,
            start.after(chars),
        ).index_start == chars.len(),
        Span::between(start, start.after(chars)).line_end - Span::between(
            start,
            start.after(chars),
        ).line_start == chars.filter(|ch: char| ch == '\n').len(),
        Span::between(start, start.after(chars)).first().after(chars) == Span::between(
            start,
            start.after(chars),
        ).last(),
{
    after_bounds(start, chars);
    after_counts_newlines(start, chars);
}

/// The span of a token: start and end offset, column and line.
#[derive(Debug, PartialEq, Eq, PartialOrd, Ord, Hash)]
pub struct TokenMeta {
    index_start: u64,
    index_end: u64,
    col_start: u64,
    col_end: u64,
    line_start: u64,
    line_end: u64,
}

impl View for TokenMeta {
    type V = Span;

    closed spec fn view(&self) -> Span {
        Span {
            index_start: self.index_start as nat,
            index_end: self.index_end as nat,
            col_start: self.col_start as nat,
            col_end: self.col_end as nat,
            line_start: self.line_start as nat,
            line_end: self.line_end as nat,
        }
    }
}

impl Clone for TokenMeta {
    fn clone(&self) -> (r: Self)
        ensures
            r@ == self@,
    {
        proof {
            use_type_invariant(self);
        }
        TokenMeta {
            index_start: self.index_start,
            index_end: self.index_end,
            col_start: self.col_start,
            col_end: self.col_end,
            line_start: self.line_start,
            line_end: self.line_end,
        }
    }
}

impl TokenMeta {
    #[verifier::type_invariant]
    spec fn inv(self) -> bool {
        &&& self.index_end > self.index_start
        &&& self.line_end >= self.line_start
    }

    /// A span from its six numbers. One that covers no character, or that ends
    /// on an earlier line than it starts on, is not a span.
    pub fn new(
        index_start: u64,
        index_end: u64,
        col_start: u64,
        col_end: u64,
        line_start: u64,
        line_end: u64,
    ) -> (r: Self)
        requires
            index_end > index_start,
            line_end >= line_start,
        ensures
            r@ == (Span {
                index_start: index_start as nat,
                index_end: index_end as nat,
                col_start: col_start as nat,
                col_end: col_end as nat,
                line_start: line_start as nat,
                line_end: line_end as nat,
            }),
            r@.valid(),
    {
        TokenMeta {
            index_start: index_start,
            index_end: index_end,
            col_start: col_start,
            col_end: col_end,
            line_start: line_start,
            line_end: line_end,
        }
    }

    /// The span from the position before a reader ran to the position after.
    pub fn new_state_meta<'a>(current_state: &'a State, state: &'a State) -> (r: TokenMeta)
        requires
            state@.index > current_state@.index,
            state@.row >= current_state@.row,
        ensures
            r@ == Span::between(current_state@, state@),
            r@.valid(),
    {
        TokenMeta::new(
            current_state.index() as u64,
            state.index() as u64,
            current_state.col(),
            state.col(),
            current_state.row(),
            state.row(),
        )
    }

    /// The offset of the first character.
    pub fn index_start(&self) -> (r: u64)
        ensures
            r == self@.index_start,
    {
        self.index_start
    }

    /// The offset right after the last character.
    pub fn index_end(&self) -> (r: u64)
        ensures
            r == self@.index_end,
            r > self@.index_start,
    {
        proof {
            use_type_invariant(self);
        }
        self.index_end
    }

    /// The line of the start: `line_start` under its other name.
    pub fn row_start(&self) -> (r: u64)
        ensures
            r == self@.line_start,
    {
        self.line_start
    }

    /// The line of the end: `line_end` under its other name.
    pub fn row_end(&self) -> (r: u64)
        ensures
            r == self@.line_end,
            r >= self@.line_start,
    {
        proof {
            use_type_invariant(self);
        }
        self.line_end
    }

    /// The column of the position before the first character.
    pub fn col_start(&self) -> (r: u64)
        ensures
            r == self@.col_start,
    {
        self.col_start
    }

    /// The column of the position after the last character.
    pub fn col_end(&self) -> (r: u64)
        ensures
            r == self@.col_end,
    {
        self.col_end
    }

    /// The line of the position before the first character.
    pub fn line_start(&self) -> (r: u64)
        ensures
            r == self@.line_start,
    {
        self.line_start
    }

    /// The line of the position after the last character.
    pub fn line_end(&self) -> (r: u64)
        ensures
            r == self@.line_end,
            r >= self@.line_start,
    {
        proof {
            use_type_invariant(self);
        }
        self.line_end
    }

    /// The number of characters covered, one at least.
    pub fn len(&self) -> (r: u64)
        ensures
            r == self@.index_end - self@.index_start,
            r >= 1,
    {
        proof {
            use_type_invariant(self);
        }
        self.index_end - self.index_start
    }

    /// The number of line breaks covered: 0 for a token on one line.
    pub fn line_count(&self) -> (r: u64)
        ensures
            r == self@.line_end - self@.line_start,
    {
        proof {
            use_type_invariant(self);
        }
        self.line_end - self.line_start
    }

    /// The distance between the end and the start column. A span that ends
    /// left of where it starts, as one over several lines may, has none.
    pub fn col_count(&self) -> (r: u64)
        requires
            self@.col_end >= self@.col_start,
        ensures
            r == self@.col_end - self@.col_start,
    {
        self.col_end - self.col_start
    }
}

} // verus!
