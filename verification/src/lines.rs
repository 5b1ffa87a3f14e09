use vstd::prelude::*;

use crate::input::Input;
use crate::line::Line;
use crate::state::{Position, State};
use crate::text::Text;

verus! {

/// A source and a position in it, borrowed together to walk the source line
/// by line. When the walk is over, the source and the position are as the
/// walk left them.
pub struct Lines<'a, I: Input + ?Sized> {
    pub state: &'a mut State,
    pub input: &'a mut I,
}

impl<'a, I: Input + ?Sized> Lines<'a, I> {
    /// The characters of the source, in contracts.
    pub open spec fn text(&self) -> Text {
        self.input.text()
    }

    /// The position of the walk, in contracts.
    pub open spec fn position(&self) -> Position {
        self.state@
    }

    /// A walk of `input` that starts at `state` and moves it.
    pub fn new(input: &'a mut I, state: &'a mut State) -> (r: Self)
        ensures
            r.text() == old(input).text(),
            r.position() == old(state)@,
            final(r.state)@ == final(state)@,
            final(r.input).text() == final(input).text(),
    {
        Lines { state: state, input: input }
    }

    /// The line at the position, without its line break. Nothing is consumed.
    pub fn peek_line(&mut self) -> (r: Option<Line>)
        ensures
            final(final(self).state)@ == final(old(self).state)@,
            final(final(self).input).text() == final(old(self).input).text(),
            final(self).text() == old(self).text(),
            final(self).position() == old(self).position(),
            r is Some <==> old(self).text().holds(old(self).position().index as int),
            r is Some ==> r->0.start() == old(self).position().index && r->0@ == old(self).text().span(
                old(self).position().index as int,
                old(self).text().line_end(old(self).position().index as int),
            ),
    {
        self.input.peek_line(self.state)
    }

    /// Consumes the rest of the line at the position, line break included.
    pub fn skip_line(&mut self)
        ensures
            final(final(self).state)@ == final(old(self).state)@,
            final(final(self).input).text() == final(old(self).input).text(),
            final(self).text() == old(self).text(),
            final(self).position() == old(self).position().after(
                old(self).text().span(
                    old(self).position().index as int,
                    old(self).text().line_stop(old(self).position().index as int),
                ),
            ),
    {
        self.input.skip_line(self.state);
    }

    /// Consumes the line at the position and returns it without its line
    /// break, or returns `None` at the end of the source.
    pub fn next(&mut self) -> (r: Option<Line>)
        ensures
            final(final(self).state)@ == final(old(self).state)@,
            final(final(self).input).text() == final(old(self).input).text(),
            final(self).text() == old(self).text(),
            r is Some <==> old(self).text().holds(old(self).position().index as int),
            r is None ==> final(self).position() == old(self).position(),
            r is Some ==> r->0.start() == old(self).position().index && r->0@ == old(self).text().span(
                old(self).position().index as int,
                old(self).text().line_end(old(self).position().index as int),
            ),
            r is Some ==> final(self).position() == old(self).position().after(
                old(self).text().span(
                    old(self).position().index as int,
                    old(self).text().line_stop(old(self).position().index as int),
                ),
            ),
    {
        self.input.read_line(self.state)
    }
}

} // verus!
