use vstd::prelude::*;

use crate::input::Input;
use crate::reader_result::ReaderResult;
use crate::state::{after_bounds, Position, State};
use crate::text::Text;
use crate::token_meta::{span_of_reading, Span};

verus! {

/// What a reader does at one position of one text: what it reports, and how
/// many characters it consumes to do so.
pub struct Outcome<T, E> {
    pub result: ReaderResult<T, E>,
    pub taken: nat,
}

impl<T, E> Outcome<T, E> {
    /// The outcome of a reader that does not match.
    pub open spec fn no_match() -> Self {
        Outcome { result: ReaderResult::NoMatch, taken: 0 }
    }

    /// Whether the position moves: a token or a skip does move it, no match
    /// and an error leave it where it is.
    pub open spec fn commits(self) -> bool {
        self.result is Token || self.result is Empty
    }

    /// The position after the outcome was adopted at `at`.
    pub open spec fn next(self, text: Text, at: Position) -> Position {
        if self.commits() {
            at.after(text.span(at.index as int, at.index as int + self.taken))
        } else {
            at
        }
    }

    /// An outcome that moves the position consumes at least one character,
    /// and no more than the text has left.
    pub open spec fn sound(self, text: Text, at: Position) -> bool {
        self.commits() ==> 1 <= self.taken <= text.remaining(at.index as int)
    }
}

/// Adopting a sound outcome that moves the position moves it forward, and not
/// past the end of the text.
pub proof fn sound_outcome_advances<T, E>(outcome: Outcome<T, E>, text: Text, at: Position)
    requires
        outcome.sound(text, at),
        outcome.commits(),
    ensures
        text.holds(at.index as int),
        at.index < outcome.next(text, at).index <= text.end(),
        outcome.next(text, at).index == at.index + outcome.taken,
        outcome.next(text, at).row >= at.row,
{
    after_bounds(at, text.span(at.index as int, at.index as int + outcome.taken));
}

/// The span between the position at which a reader began and the position
/// where its token or skip ends is a span that a token can have: it is
/// valid, as long as what was consumed, and consuming the characters it
/// covers from its start gives its end.
pub proof fn outcome_span<T, E>(outcome: Outcome<T, E>, text: Text, at: Position)
    requires
        outcome.sound(text, at),
        outcome.commits(),
    ensures
        Span::between(at, outcome.next(text, at)).valid(),
        Span::between(at, outcome.next(text, at)).index_end - Span::between(
            at,
            outcome.next(text, at),
        ).index_start == outcome.taken,
        Span::between(at, outcome.next(text, at)).first().after(
            text.span(
                Span::between(at, outcome.next(text, at)).index_start as int,
                Span::between(at, outcome.next(text, at)).index_end as int,
            ),
        ) == Span::between(at, outcome.next(text, at)).last(),
{
    sound_outcome_advances(outcome, text, at);
    span_of_reading(at, text.span(at.index as int, at.index as int + outcome.taken));
}

/// A recognizer of one pattern. At a position of a source it consumes the
/// characters of its pattern and reports a token, or that they are to be
/// skipped; or it reports that the pattern is not there, or that the input is
/// malformed. `I` is the kind of source it reads from: any, unless it says
/// otherwise.
pub trait Reader<T, E, I: Input + ?Sized = dyn Input> {
    /// What this reader does at position `at` of `text`. It depends on nothing
    /// else: a reader answers the same question the same way.
    open spec fn outcome(&self, text: Text, at: Position) -> Outcome<T, E> {
        arbitrary()
    }

    /// The priority, in contracts.
    open spec fn rank(&self) -> nat {
        arbitrary()
    }

    /// The place of this reader among the others: the lower the number, the
    /// earlier it is tried.
    fn priority(&self) -> (p: usize)
        ensures
            p == self.rank(),
    ;

    /// Tries the pattern at `current`. `next` arrives as a copy of `current`;
    /// where the reader reports a token or a skip it leaves in `next` the
    /// position after the characters it consumed, one at least. The caller
    /// adopts `next` in those two cases and forgets it in the others.
    fn read(&self, input: &mut I, current: &State, next: &mut State) -> (r: ReaderResult<T, E>)
        requires
            old(next)@ == current@,
        ensures
            final(input).text() == old(input).text(),
            r == self.outcome(old(input).text(), current@).result,
            self.outcome(old(input).text(), current@).sound(old(input).text(), current@),
            self.outcome(old(input).text(), current@).commits() ==> final(next)@ == self.outcome(
                old(input).text(),
                current@,
            ).next(old(input).text(), current@),
    ;
}

} // verus!
