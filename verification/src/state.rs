use vstd::prelude::*;

verus! {

/// A point in the input as the contracts see it: the absolute offset, and the
/// line and column, both counted from 1.
pub struct Position {
    pub index: nat,
    pub row: nat,
    pub col: nat,
}

impl Position {
    /// Where every tokenization starts.
    pub open spec fn origin() -> Position {
        Position { index: 0, row: 1, col: 1 }
    }

    /// The position after one more character was consumed. A newline opens the
    /// next line at column 1. Any other character moves one column to the
    /// right, except the very first character of the input, which leaves the
    /// column where it is.
    pub open spec fn advance(self, is_newline: bool) -> Position {
        if is_newline {
            Position { index: self.index + 1, row: self.row + 1, col: 1 }
        } else if self.index != 0 {
            Position { index: self.index + 1, row: self.row, col: self.col + 1 }
        } else {
            Position { index: self.index + 1, row: self.row, col: self.col }
        }
    }

    /// The position after `chars` were consumed one by one, in order.
    pub open spec fn after(self, chars: Seq<char>) -> Position
        decreases chars.len(),
    {
        if chars.len() == 0 {
            self
        } else {
            self.after(chars.drop_last()).advance(chars.last() == '\n')
        }
    }

    /// Neither the line nor the column runs ahead of the offset.
    pub open spec fn tame(self) -> bool {
        &&& 1 <= self.row <= self.index + 1
        &&& 1 <= self.col <= self.index + 1
    }
}

/// Consuming one more character after `chars` is one `advance` more.
pub proof fn after_push(from: Position, chars: Seq<char>, ch: char)
    ensures
        from.after(chars.push(ch)) == from.after(chars).advance(ch == '\n'),
{
    assert(chars.push(ch).drop_last() =~= chars);
}

/// Consuming `first` and then `second` is consuming their concatenation.
pub proof fn after_concat(from: Position, first: Seq<char>, second: Seq<char>)
    ensures
        from.after(first + second) == from.after(first).after(second),
    decreases second.len(),
{
    if second.len() == 0 {
        assert(first + second =~= first);
    } else {
        after_concat(from, first, second.drop_last());
        assert((first + second).drop_last() =~= first + second.drop_last());
    }
}

/// What consuming `chars` does to each coordinate: the offset grows by their
/// number, the line never goes back and grows by at most their number, and a
/// tame position stays tame.
pub proof fn after_bounds(from: Position, chars: Seq<char>)
    ensures
        from.after(chars).index == from.index + chars.len(),
        from.row <= from.after(chars).row <= from.row + chars.len(),
        from.tame() ==> from.after(chars).tame(),
    decreases chars.len(),
{
    if chars.len() > 0 {
        after_bounds(from, chars.drop_last());
    }
}

/// The line after `chars` is the line before plus the number of newlines
/// among them.
pub proof fn after_counts_newlines(from: Position, chars: Seq<char>)
    ensures
        from.after(chars).row == from.row + chars.filter(|ch: char| ch == '\n').len(),
    decreases chars.len(),
{
    reveal(Seq::filter);
    if chars.len() > 0 {
        after_counts_newlines(from, chars.drop_last());
    }
}

/// Progress through the input: the offset of the next character, and the line
/// and column it stands on.
#[derive(Debug, PartialEq, Eq, PartialOrd, Ord, Hash)]
pub struct State {
    index: usize,
    row: u64,
    col: u64,
}

impl View for State {
    type V = Position;

    closed spec fn view(&self) -> Position {
        Position { index: self.index as nat, row: self.row as nat, col: self.col as nat }
    }
}

impl Clone for State {
    fn clone(&self) -> (r: Self)
        ensures
            r@ == self@,
    {
        proof {
            use_type_invariant(self);
        }
        State { index: self.index, row: self.row, col: self.col }
    }
}

impl Default for State {
    fn default() -> (r: Self)
        ensures
            r@ == Position::origin(),
    {
        State { index: 0usize, row: 1u64, col: 1u64 }
    }
}

impl State {
    #[verifier::type_invariant]
    spec fn inv(self) -> bool {
        &&& 1 <= self.row <= self.index + 1
        &&& 1 <= self.col <= self.index + 1
    }

    /// The state before anything was read: offset 0, line 1, column 1.
    pub fn new() -> (r: Self)
        ensures
            r@ == Position::origin(),
    {
        State { index: 0usize, row: 1u64, col: 1u64 }
    }

    /// The state at a given offset, line and column, if there is one: the
    /// line and the column count from 1, and neither runs more than one ahead
    /// of the offset.
    pub fn at(index: usize, row: u64, col: u64) -> (r: Option<Self>)
        ensures
            r is Some <==> (Position { index: index as nat, row: row as nat, col: col as nat }).tame(),
            r is Some ==> r->0@ == (Position { index: index as nat, row: row as nat, col: col as nat }),
    {
        if 1 <= row && row - 1 <= index as u64 && 1 <= col && col - 1 <= index as u64 {
            Some(State { index: index, row: row, col: col })
        } else {
            None
        }
    }

    /// The offset of the next character: the number of characters consumed.
    pub fn index(&self) -> (r: usize)
        ensures
            r == self@.index,
    {
        self.index
    }

    /// The line, counted from 1. It is never more than one ahead of the
    /// offset.
    pub fn row(&self) -> (r: u64)
        ensures
            r == self@.row,
            1 <= r <= self@.index + 1,
    {
        proof {
            use_type_invariant(self);
        }
        self.row
    }

    /// The column, counted from 1. It is never more than one ahead of the
    /// offset.
    pub fn col(&self) -> (r: u64)
        ensures
            r == self@.col,
            1 <= r <= self@.index + 1,
    {
        proof {
            use_type_invariant(self);
        }
        self.col
    }

    /// Consumes one character, a newline or not. The last two offsets that a
    /// `usize` can hold are out of reach, so that the line and the column,
    /// which may run one ahead of the offset, always fit.
    pub fn read(&mut self, is_newline: bool)
        requires
            old(self)@.index + 1 < usize::MAX,
        ensures
            final(self)@ == old(self)@.advance(is_newline),
    {
        proof {
            use_type_invariant(&*self);
        }
        let index: usize = self.index + 1;
        if is_newline {
            *self = State { index: index, row: self.row + 1, col: 1u64 };
        } else if self.index != 0 {
            *self = State { index: index, row: self.row, col: self.col + 1 };
        } else {
            *self = State { index: index, row: self.row, col: self.col };
        }
    }
}

} // verus!
