use peek_nth::{IteratorExt, PeekableNth};
use vstd::prelude::*;

use crate::line::Line;
use crate::lines::Lines;
use crate::state::{after_bounds, State};
use crate::text::{
    after_span_push, clip_in_reach, reach, run_end_is_first, span_push, within_line, Text,
};

verus! {

/// Whether a character has the Unicode property White_Space.
pub uninterp spec fn whitespace(ch: char) -> bool;

/// `char::is_whitespace` says whether the character has the Unicode property
/// White_Space: the same answer for the same character, always.
pub assume_specification[ char::is_whitespace ](ch: char) -> (r: bool)
    ensures
        r == whitespace(ch),
;

/// `String::push` appends the character to the end of the string.
pub assume_specification[ String::push ](string: &mut String, ch: char)
    ensures
        final(string)@ == old(string)@.push(ch),
;

/// What holds of the characters of a run of whitespace.
pub open spec fn is_whitespace() -> spec_fn(char) -> bool {
    |ch: char| whitespace(ch)
}

/// The offset where the run of whitespace from `from` ends.
pub open spec fn whitespace_end(text: Text, from: int) -> int {
    text.run_end(from, is_whitespace())
}

/// The characters of a run are characters that `keep` accepts.
pub proof fn run_holds(text: Text, from: int, keep: spec_fn(char) -> bool)
    ensures
        from <= text.run_end(from, keep),
        forall|i: int|
            0 <= i < text.run_end(from, keep) - from ==> keep(
                #[trigger] text.span(from, text.run_end(from, keep))[i],
            ),
{
    run_end_is_first(text, from, keep);
    assert forall|i: int| 0 <= i < text.run_end(from, keep) - from implies keep(
        #[trigger] text.span(from, text.run_end(from, keep))[i],
    ) by {
        assert(text.holds(from + i));
    }
}

/// A line holds no line break.
pub proof fn line_has_no_break(text: Text, from: int)
    ensures
        forall|i: int|
            0 <= i < text.span(from, text.line_end(from)).len() ==> text.span(
                from,
                text.line_end(from),
            )[i] != '\n',
{
    run_holds(text, from, within_line());
}

/// A character source with unlimited lookahead. It keeps no position of its
/// own: every operation works at the position that it is handed, and only a
/// consuming one moves that position.
pub trait Input {
    /// The characters of the source. No operation changes them.
    open spec fn text(&self) -> Text {
        arbitrary()
    }

    /// The character `offset` places ahead of `state`, if there is one. The
    /// source may fetch and keep characters to answer; what it holds stays
    /// the same.
    fn peek(&mut self, state: &State, offset: usize) -> (r: Option<char>)
        ensures
            final(self).text() == old(self).text(),
            r == old(self).text().char_at(state@.index + offset),
            r is Some ==> state@.index + offset < reach(),
    ;

    /// The source and a position, bundled to walk the source line by line.
    fn lines<'a>(&'a mut self, state: &'a mut State) -> (r: Lines<'a, Self>) where Self: Sized
        ensures
            r.input.text() == old(self).text(),
            r.state@ == old(state)@,
            final(r.state)@ == final(state)@,
            final(r.input).text() == final(self).text(),
    {
        Lines { state: state, input: self }
    }

    /// Consumes the character at `state`, if there is one, and returns it.
    fn read(&mut self, state: &mut State) -> (r: Option<char>)
        ensures
            final(self).text() == old(self).text(),
            r == old(self).text().char_at(old(state)@.index as int),
            final(state)@ == (match r {
                Some(ch) => old(state)@.advance(ch == '\n'),
                None => old(state)@,
            }),
    {
        match self.peek(state, 0) {
            Some(ch) => {
                state.read(ch == '\n');
                Some(ch)
            },
            None => None,
        }
    }

    /// Consumes `offset` characters, or as many as are left, and returns
    /// their number.
    fn read_offset(&mut self, state: &mut State, offset: usize) -> (r: usize)
        ensures
            final(self).text() == old(self).text(),
            r == vstd::math::min(offset as int, old(self).text().remaining(old(state)@.index as int) as int),
            final(state)@ == old(state)@.after(
                old(self).text().span(old(state)@.index as int, old(state)@.index + r),
            ),
    {
        let ghost text = self.text();
        let ghost from = state@;
        let mut read: usize = 0;
        while read < offset
            invariant
                self.text() == text,
                text == old(self).text(),
                from == old(state)@,
                read <= offset,
                read > 0 ==> text.holds(from.index as int),
                read <= text.remaining(from.index as int) || read == 0,
                state@ == from.after(text.span(from.index as int, from.index + read)),
            decreases offset - read,
        {
            proof {
                after_bounds(from, text.span(from.index as int, from.index + read));
            }
            match self.read(state) {
                None => {
                    return read;
                },
                Some(_) => {
                    proof {
                        after_span_push(text, from, from.index as int, from.index + read);
                    }
                    read += 1;
                },
            }
        }
        read
    }

    /// Consumes the rest of the line at `state`, line break included.
    fn skip_line(&mut self, state: &mut State)
        ensures
            final(self).text() == old(self).text(),
            final(state)@ == old(state)@.after(
                old(self).text().span(
                    old(state)@.index as int,
                    old(self).text().line_stop(old(state)@.index as int),
                ),
            ),
    {
        let ghost text = self.text();
        let ghost from = state@;
        loop
            invariant
                self.text() == text,
                text == old(self).text(),
                from == old(state)@,
                from.index <= state@.index,
                state@ == from.after(text.span(from.index as int, state@.index as int)),
                text.line_end(from.index as int) == text.line_end(state@.index as int),
            decreases text.end() + 1 - state@.index,
        {
            let ghost at = state@.index as int;
            match self.read(state) {
                None => {
                    return ;
                },
                Some(ch) => {
                    proof {
                        after_span_push(text, from, from.index as int, at);
                    }
                    if ch == '\n' {
                        return ;
                    }
                },
            }
        }
    }

    /// The line at `state`, without its line break, or `None` at the end of
    /// the source. Nothing is consumed.
    fn peek_line(&mut self, state: &State) -> (r: Option<Line>)
        ensures
            final(self).text() == old(self).text(),
            r is Some <==> old(self).text().holds(state@.index as int),
            r is Some ==> r->0.start() == state@.index && r->0@ == old(self).text().span(
                state@.index as int,
                old(self).text().line_end(state@.index as int),
            ),
            r is Some ==> forall|i: int| 0 <= i < r->0@.len() ==> r->0@[i] != '\n',
    {
        if self.is_done(state) {
            None
        } else {
            let ghost text = self.text();
            let ghost from = state@.index as int;
            let mut string = String::new();
            let mut index: usize = 0;
            let offset = state.index();
            loop
                invariant
                    self.text() == text,
                    text == old(self).text(),
                    text.holds(from),
                    from == state@.index,
                    offset == from,
                    string@ == text.span(from, from + index),
                    text.line_end(from) == text.line_end(from + index),
                decreases text.end() - from - index,
            {
                match self.peek(state, index) {
                    Some(ch) => {
                        if ch != '\n' {
                            proof {
                                span_push(text, from, from + index);
                            }
                            index += 1;
                            string.push(ch);
                        } else {
                            proof {
                                line_has_no_break(text, offset as int);
                            }
                            return Some(Line::new(offset, string));
                        }
                    },
                    None => {
                        proof {
                            line_has_no_break(text, offset as int);
                        }
                        return Some(Line::new(offset, string));
                    },
                }
            }
        }
    }

    /// Consumes the line at `state` and returns it without its line break, or
    /// returns `None` at the end of the source.
    fn read_line(&mut self, state: &mut State) -> (r: Option<Line>)
        ensures
            final(self).text() == old(self).text(),
            r is Some <==> old(self).text().holds(old(state)@.index as int),
            r is None ==> final(state)@ == old(state)@,
            r is Some ==> r->0.start() == old(state)@.index && r->0@ == old(self).text().span(
                old(state)@.index as int,
                old(self).text().line_end(old(state)@.index as int),
            ),
            r is Some ==> final(state)@ == old(state)@.after(
                old(self).text().span(
                    old(state)@.index as int,
                    old(self).text().line_stop(old(state)@.index as int),
                ),
            ),
            r is Some ==> forall|i: int| 0 <= i < r->0@.len() ==> r->0@[i] != '\n',
    {
        if self.is_done(state) {
            None
        } else {
            let ghost text = self.text();
            let ghost from = state@;
            let mut string = String::new();
            let offset = state.index();
            loop
                invariant
                    self.text() == text,
                    text == old(self).text(),
                    from == old(state)@,
                    offset == from.index,
                    text.holds(from.index as int),
                    from.index <= state@.index,
                    state@ == from.after(text.span(from.index as int, state@.index as int)),
                    string@ == text.span(from.index as int, state@.index as int),
                    text.line_end(from.index as int) == text.line_end(state@.index as int),
                decreases text.end() + 1 - state@.index,
            {
                let ghost at = state@.index as int;
                match self.read(state) {
                    Some(ch) => {
                        proof {
                            after_span_push(text, from, from.index as int, at);
                        }
                        if ch != '\n' {
                            proof {
                                span_push(text, from.index as int, at);
                            }
                            string.push(ch);
                        } else {
                            proof {
                                line_has_no_break(text, offset as int);
                            }
                            return Some(Line::new(offset, string));
                        }
                    },
                    None => {
                        proof {
                            line_has_no_break(text, offset as int);
                        }
                        return Some(Line::new(offset, string));
                    },
                }
            }
        }
    }

    /// Consumes the run of whitespace at `state` and returns it, or returns
    /// `None` where there is none.
    fn read_whitespaces(&mut self, state: &mut State) -> (r: Option<String>)
        ensures
            final(self).text() == old(self).text(),
            r is Some <==> whitespace_end(old(self).text(), old(state)@.index as int) > old(state)@.index,
            r is Some ==> r->0@ == old(self).text().span(
                old(state)@.index as int,
                whitespace_end(old(self).text(), old(state)@.index as int),
            ),
            r is Some ==> r->0@.len() > 0 && forall|i: int|
                0 <= i < r->0@.len() ==> whitespace(#[trigger] r->0@[i]),
            final(state)@ == old(state)@.after(
                old(self).text().span(
                    old(state)@.index as int,
                    whitespace_end(old(self).text(), old(state)@.index as int),
                ),
            ),
    {
        let ghost text = self.text();
        let ghost from = state@;
        let mut string = String::new();
        loop
            invariant
                self.text() == text,
                text == old(self).text(),
                from == old(state)@,
                from.index <= state@.index,
                state@ == from.after(text.span(from.index as int, state@.index as int)),
                string@ == text.span(from.index as int, state@.index as int),
                whitespace_end(text, from.index as int) == whitespace_end(text, state@.index as int),
            decreases text.end() + 1 - state@.index,
        {
            let ghost at = state@.index as int;
            let run_on = match self.peek(state, 0) {
                Some(ch) => ch.is_whitespace(),
                None => false,
            };
            if !run_on {
                proof {
                    run_holds(text, from.index as int, is_whitespace());
                }
                if string.as_str().is_empty() {
                    return None;
                } else {
                    return Some(string);
                }
            }
            match self.read(state) {
                Some(ch) => {
                    proof {
                        after_span_push(text, from, from.index as int, at);
                        span_push(text, from.index as int, at);
                    }
                    string.push(ch);
                },
                None => {},
            }
        }
    }

    /// Consumes the run of whitespace at `state`.
    fn skip_whitespaces(&mut self, state: &mut State)
        ensures
            final(self).text() == old(self).text(),
            final(state)@ == old(state)@.after(
                old(self).text().span(
                    old(state)@.index as int,
                    whitespace_end(old(self).text(), old(state)@.index as int),
                ),
            ),
    {
        let ghost text = self.text();
        let ghost from = state@;
        loop
            invariant
                self.text() == text,
                text == old(self).text(),
                from == old(state)@,
                from.index <= state@.index,
                state@ == from.after(text.span(from.index as int, state@.index as int)),
                whitespace_end(text, from.index as int) == whitespace_end(text, state@.index as int),
            decreases text.end() + 1 - state@.index,
        {
            let ghost at = state@.index as int;
            let run_on = match self.peek(state, 0) {
                Some(ch) => ch.is_whitespace(),
                None => false,
            };
            if !run_on {
                return ;
            }
            let _ = self.read(state);
            proof {
                after_span_push(text, from, from.index as int, at);
            }
        }
    }

    /// Whether no character is left at `state`.
    fn is_done(&mut self, state: &State) -> (r: bool)
        ensures
            final(self).text() == old(self).text(),
            r == !old(self).text().holds(state@.index as int),
    {
        !self.can_peek(state, 0)
    }

    /// Whether there is a character `offset` places ahead of `state`.
    fn can_peek(&mut self, state: &State, offset: usize) -> (r: bool)
        ensures
            final(self).text() == old(self).text(),
            r == old(self).text().holds(state@.index + offset),
    {
        self.peek(state, offset).is_some()
    }
}

/// `PeekableNth` of the crate `peek_nth`: an iterator that also lets its
/// caller look any number of items ahead.
#[verifier::external_type_specification]
#[verifier::external_body]
#[verifier::reject_recursive_types(I)]
pub struct ExPeekableNth<I: Iterator>(PeekableNth<I>);

/// The characters that a `PeekableNth` over the characters of a string has
/// yet to give out: those that it has fetched to look ahead, then those that
/// its iterator has left.
pub uninterp spec fn pending(input: PeekableNth<std::str::Chars<'_>>) -> Seq<char>;

/// `IteratorExt::peekable_nth` wraps the iterator without taking an item from
/// it: what the result has to give out is what the iterator had left.
#[verifier::external_body]
pub(crate) fn peekable_nth<'a>(iter: std::str::Chars<'a>) -> (r: PeekableNth<std::str::Chars<'a>>)
    ensures
        pending(r) == vstd::std_specs::iter::IteratorSpec::remaining(&iter),
{
    iter.peekable_nth()
}

/// `PeekableNth::peek_nth` returns the item `n` places ahead, if there are so
/// many, and gives none out. It adds 1 to `n`, so `n` must leave room for that.
#[verifier::external_body]
fn peek_nth(input: &mut PeekableNth<std::str::Chars<'_>>, n: usize) -> (r: Option<char>)
    requires
        n < usize::MAX,
    ensures
        pending(*final(input)) == pending(*old(input)),
        r == (if n < pending(*old(input)).len() {
            Some(pending(*old(input))[n as int])
        } else {
            None
        }),
{
    input.peek_nth(n).copied()
}

impl<'a> Input for PeekableNth<std::str::Chars<'a>> {
    open spec fn text(&self) -> Text {
        Text::clip(0, pending(*self))
    }

    fn peek(&mut self, state: &State, offset: usize) -> (r: Option<char>) {
        proof {
            clip_in_reach(0, pending(*self));
        }
        let index = state.index();
        if index >= usize::MAX - 1 || offset >= usize::MAX - 1 - index {
            None
        } else {
            peek_nth(self, index + offset)
        }
    }
}

} // verus!
