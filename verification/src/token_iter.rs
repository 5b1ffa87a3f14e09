use peek_nth::PeekableNth;
use vstd::prelude::*;

use crate::input::{peekable_nth, Input};
use crate::read::{read, step, Step};
use crate::reader::Reader;
use crate::readers::Readers;
use crate::state::{Position, State};
use crate::text::Text;

verus! {

/// One run of a tokenizer: a registry, a source and the position in it. Each
/// call of `next` reads one token. After an error the run is over.
#[verifier::reject_recursive_types(T)]
#[verifier::reject_recursive_types(E)]
#[verifier::reject_recursive_types(I)]
pub struct TokenIter<'a, T, E, I: ?Sized = dyn Input, R: ?Sized = dyn Reader<T, E, I>> {
    readers: &'a Readers<T, E, I, R>,
    state: State,
    input: Box<I>,
    failed: bool,
}

impl<'a, T, E, I: Input + ?Sized, R: Reader<T, E, I> + ?Sized> TokenIter<'a, T, E, I, R> {
    /// The registry of the run, in contracts.
    pub closed spec fn readers(&self) -> &'a Readers<T, E, I, R> {
        self.readers
    }

    /// The characters of the source, in contracts.
    pub closed spec fn text(&self) -> Text {
        self.input.text()
    }

    /// The position of the run, in contracts.
    pub closed spec fn position(&self) -> Position {
        self.state@
    }

    /// Whether the run ended with an error.
    pub closed spec fn failed(&self) -> bool {
        self.failed
    }

    /// Whether the run can go on from where it is: it has failed and is over,
    /// or the readers cover what comes next.
    pub open spec fn ready(&self) -> bool {
        self.failed() || !self.readers().reading(self.text(), self.position()).stuck
    }

    /// A run of `readers` over `input`, from its start.
    pub fn new(readers: &'a Readers<T, E, I, R>, input: Box<I>) -> (r: Self)
        ensures
            r.readers() == readers,
            r.text() == input.text(),
            r.position() == Position::origin(),
            !r.failed(),
    {
        TokenIter { readers: readers, state: State::new(), input: input, failed: false }
    }

    /// The position of the run.
    pub fn state(&self) -> (r: &State)
        ensures
            r@ == self.position(),
    {
        &self.state
    }

    /// Whether the run ended with an error.
    pub fn is_failed(&self) -> (r: bool)
        ensures
            r == self.failed(),
    {
        self.failed
    }

    /// Reads one token, and says how that ended. A run that is over is done.
    pub fn step(&mut self) -> (r: Step<T, E>)
        ensures
            final(self).readers() == old(self).readers(),
            final(self).text() == old(self).text(),
            old(self).failed() ==> r is Done && final(self).failed() && final(self).position() == old(
                self,
            ).position(),
            !old(self).failed() ==> r == Step::of(
                old(self).readers().reading(old(self).text(), old(self).position()),
            ) && final(self).position() == old(self).readers().reading(
                old(self).text(),
                old(self).position(),
            ).at && final(self).failed() == (r is Error),
    {
        if self.failed {
            Step::Done
        } else {
            let step = step(self.readers, &mut *self.input, &mut self.state);
            match step {
                Step::Error(error) => {
                    self.failed = true;
                    Step::Error(error)
                },
                other => other,
            }
        }
    }

    /// The next token, or the error that ends the run, or `None` when the run
    /// is over: at the end of the source, or after an error.
    pub fn next(&mut self) -> (r: Option<Result<T, E>>)
        requires
            old(self).ready(),
        ensures
            final(self).readers() == old(self).readers(),
            final(self).text() == old(self).text(),
            old(self).failed() ==> r is None && final(self).failed() && final(self).position() == old(
                self,
            ).position(),
            !old(self).failed() ==> r == old(self).readers().reading(
                old(self).text(),
                old(self).position(),
            ).item && final(self).position() == old(self).readers().reading(
                old(self).text(),
                old(self).position(),
            ).at && final(self).failed() == (r matches Some(Err(_))),
    {
        match self.step() {
            Step::Done => None,
            Step::Token(token) => Some(Ok(token)),
            Step::Error(error) => Some(Err(error)),
            Step::Stuck => vstd::pervasive::unreached(),
        }
    }
}

impl<'a, T, E, I: Input + ?Sized, R: Reader<T, E, I> + ?Sized> TokenIter<'a, T, E, I, R> {
    /// All that is left of the run: the tokens up to the end of the source,
    /// or up to the error that ends the run, which is then the last item.
    pub fn collect(self) -> (r: Vec<Result<T, E>>)
        requires
            !self.failed() ==> self.readers().covers(self.text(), self.position()),
        ensures
            r@ == (if self.failed() {
                Seq::empty()
            } else {
                self.readers().tokens(self.text(), self.position())
            }),
    {
        let mut run = self;
        let mut items: Vec<Result<T, E>> = Vec::new();
        if run.failed {
            return items;
        }
        let ghost text = run.input.text();
        let ghost start = run.state@;
        loop
            invariant
                run.readers == self.readers,
                run.input.text() == text,
                text == self.text(),
                start == self.position(),
                !self.failed(),
                run.readers.covers(text, run.state@),
                items@ + run.readers.tokens(text, run.state@) == run.readers.tokens(text, start),
            decreases text.end() - run.state@.index,
        {
            let ghost at = run.state@;
            let ghost before = items@;
            match read(run.readers, &mut *run.input, &mut run.state) {
                None => {
                    proof {
                        assert(before + Seq::<Result<T, E>>::empty() =~= before);
                    }
                    return items;
                },
                Some(Err(error)) => {
                    items.push(Err(error));
                    proof {
                        assert(before + seq![Err::<T, E>(error)] =~= before.push(Err(error)));
                    }
                    return items;
                },
                Some(Ok(token)) => {
                    items.push(Ok(token));
                    proof {
                        assert(before + (seq![Ok::<T, E>(token)] + run.readers.tokens(text, run.state@))
                            =~= before.push(Ok(token)) + run.readers.tokens(text, run.state@));
                    }
                },
            }
        }
    }
}

impl<'i, T, E, R: Reader<T, E, PeekableNth<std::str::Chars<'i>>> + ?Sized> Readers<
    T,
    E,
    PeekableNth<std::str::Chars<'i>>,
    R,
> {
    /// A run of these readers over the characters that `iter` has left.
    pub fn read<'a>(&'a self, iter: std::str::Chars<'i>) -> (r: TokenIter<
        'a,
        T,
        E,
        PeekableNth<std::str::Chars<'i>>,
        R,
    >)
        ensures
            r.readers() == self,
            r.text() == Text::clip(0, vstd::std_specs::iter::IteratorSpec::remaining(&iter)),
            r.position() == Position::origin(),
            !r.failed(),
    {
        TokenIter::new(self, Box::new(peekable_nth(iter)))
    }
}

} // verus!
