use vstd::prelude::*;

use crate::input::Input;
use crate::reader::{sound_outcome_advances, Reader};
use crate::reader_result::ReaderResult;
use crate::readers::{Readers, Reading};
use crate::state::State;
use crate::text::after_spans;

verus! {

/// One pass over the readers at `state`: each is tried on a copy of `state`,
/// in the order of the registry, until one matches. A token or a skip moves
/// `state` to where that reader stopped, which is further on; an error or no
/// match at all leaves it.
pub fn dispatch<T, E, I: Input + ?Sized, R: Reader<T, E, I> + ?Sized>(
    readers: &Readers<T, E, I, R>,
    input: &mut I,
    state: &mut State,
) -> (r: ReaderResult<T, E>)
    ensures
        final(input).text() == old(input).text(),
        r == readers.select(old(input).text(), old(state)@).result,
        readers.select(old(input).text(), old(state)@).sound(old(input).text(), old(state)@),
        final(state)@ == readers.select(old(input).text(), old(state)@).next(
            old(input).text(),
            old(state)@,
        ),
        r is Token || r is Empty ==> old(state)@.index < final(state)@.index <= old(input).text().end(),
        r is Token || r is Empty ==> final(state)@.index == old(state)@.index + readers.select(
            old(input).text(),
            old(state)@,
        ).taken,
{
    let ghost text = input.text();
    let ghost at = state@;
    let mut index: usize = 0;
    loop
        invariant
            input.text() == text,
            text == old(input).text(),
            state@ == at,
            at == old(state)@,
            index <= readers@.len(),
            readers.first_match(text, at, 0) == readers.first_match(text, at, index as int),
        decreases readers@.len() - index,
    {
        let reader = match readers.get(index) {
            Some(reader) => reader,
            None => {
                return ReaderResult::NoMatch;
            },
        };
        let ghost found = reader.outcome(text, at);
        let mut next = state.clone();
        let result = reader.read(input, state, &mut next);
        proof {
            if found.commits() {
                sound_outcome_advances(found, text, at);
            }
        }
        match result {
            ReaderResult::Token(token) => {
                *state = next;
                return ReaderResult::Token(token);
            },
            ReaderResult::Error(error) => {
                return ReaderResult::Error(error);
            },
            ReaderResult::Empty => {
                *state = next;
                return ReaderResult::Empty;
            },
            ReaderResult::NoMatch => {},
        }
        index += 1;
    }
}

/// How reading one token ends.
pub enum Step<T, E> {
    /// No input is left: the run is over.
    Done,
    /// A reader has made this token of the next characters.
    Token(T),
    /// A reader has found the input malformed: the run is over.
    Error(E),
    /// Input is left and no reader matches it: the readers do not cover the
    /// input.
    Stuck,
}

impl<T, E> Step<T, E> {
    /// How a reading ends, as a step.
    pub open spec fn of(reading: Reading<T, E>) -> Self {
        if reading.stuck {
            Step::Stuck
        } else {
            match reading.item {
                None => Step::Done,
                Some(Ok(token)) => Step::Token(token),
                Some(Err(error)) => Step::Error(error),
            }
        }
    }
}

/// Reads one token at `state`. Where no input is left the run is done; else
/// the readers are passed over, once more after each skip, until a pass ends
/// with a token or an error, or finds no reader that matches. `state` moves
/// past what was skipped and past the token; an error and a pass without a
/// match leave it where that pass began.
pub fn step<T, E, I: Input + ?Sized, R: Reader<T, E, I> + ?Sized>(
    readers: &Readers<T, E, I, R>,
    input: &mut I,
    state: &mut State,
) -> (r: Step<T, E>)
    ensures
        final(input).text() == old(input).text(),
        r == Step::of(readers.reading(old(input).text(), old(state)@)),
        final(state)@ == readers.reading(old(input).text(), old(state)@).at,
        r is Token ==> old(state)@.index < final(state)@.index <= old(input).text().end(),
        r is Done ==> !old(input).text().holds(final(state)@.index as int),
        r is Stuck ==> old(input).text().holds(final(state)@.index as int),
        old(state)@.index <= final(state)@.index,
        final(state)@ == old(state)@.after(
            old(input).text().span(old(state)@.index as int, final(state)@.index as int),
        ),
{
    let ghost text = input.text();
    loop
        invariant
            input.text() == text,
            text == old(input).text(),
            old(state)@.index <= state@.index,
            state@ == old(state)@.after(text.span(old(state)@.index as int, state@.index as int)),
            readers.reading(text, state@) == readers.reading(text, old(state)@),
        decreases text.end() - state@.index,
    {
        if input.is_done(state) {
            return Step::Done;
        }
        let ghost before = state@;
        let result = dispatch(readers, input, state);
        proof {
            let found = readers.select(text, before);
            if found.commits() {
                sound_outcome_advances(found, text, before);
                after_spans(
                    text,
                    old(state)@,
                    old(state)@.index as int,
                    before.index as int,
                    state@.index as int,
                );
            }
        }
        match result {
            ReaderResult::Token(token) => {
                return Step::Token(token);
            },
            ReaderResult::Error(error) => {
                return Step::Error(error);
            },
            ReaderResult::Empty => {},
            ReaderResult::NoMatch => {
                return Step::Stuck;
            },
        }
    }
}

/// Reads one token at `state`: `None` where no input is left, else the token
/// or the error that `step` ends with.
///
/// Readers that leave some input unmatched do not cover it: that is a defect
/// of the reader set, and such a set is not to be read with.
pub fn read<T, E, I: Input + ?Sized, R: Reader<T, E, I> + ?Sized>(
    readers: &Readers<T, E, I, R>,
    input: &mut I,
    state: &mut State,
) -> (r: Option<Result<T, E>>)
    requires
        !readers.reading(old(input).text(), old(state)@).stuck,
    ensures
        final(input).text() == old(input).text(),
        r == readers.reading(old(input).text(), old(state)@).item,
        final(state)@ == readers.reading(old(input).text(), old(state)@).at,
        r matches Some(Ok(_)) ==> old(state)@.index < final(state)@.index <= old(input).text().end(),
        r is None ==> !old(input).text().holds(final(state)@.index as int),
        old(state)@.index <= final(state)@.index,
        final(state)@ == old(state)@.after(
            old(input).text().span(old(state)@.index as int, final(state)@.index as int),
        ),
{
    match step(readers, input, state) {
        Step::Done => None,
        Step::Token(token) => Some(Ok(token)),
        Step::Error(error) => Some(Err(error)),
        Step::Stuck => vstd::pervasive::unreached(),
    }
}

} // verus!
