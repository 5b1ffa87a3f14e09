use std::marker::PhantomData;
use vstd::prelude::*;

use crate::input::Input;
use crate::order::{arrange, ascending, place, remove_keeps_order, settle, slot, Entry};
use crate::reader::{sound_outcome_advances, Outcome, Reader};
use crate::reader_result::ReaderResult;
use crate::state::Position;
use crate::text::{after_spans, Text};

verus! {

/// What reading one token comes to: the token or the error, if there is one,
/// and the position afterwards. It is stuck where input remains and no
/// reader matches it: the readers do not cover the input.
pub struct Reading<T, E> {
    pub item: Option<Result<T, E>>,
    pub at: Position,
    pub stuck: bool,
}

/// The readers of one tokenizer, in the order in which they are tried: by
/// ascending priority, and among equals the one added first comes first.
/// `R` is what the readers are: any reader of tokens `T`, errors `E` and
/// sources `I`, unless it says otherwise.
#[verifier::reject_recursive_types(T)]
#[verifier::reject_recursive_types(E)]
#[verifier::reject_recursive_types(I)]
pub struct Readers<T, E, I: ?Sized = dyn Input, R: ?Sized = dyn Reader<T, E, I>> {
    entries: Vec<Entry<R>>,
    marker: PhantomData<(T, E, Box<I>)>,
}

impl<T, E, I: Input + ?Sized, R: Reader<T, E, I> + ?Sized> View for Readers<T, E, I, R> {
    type V = Seq<Entry<R>>;

    closed spec fn view(&self) -> Seq<Entry<R>> {
        self.entries@
    }
}

impl<T, E, I: ?Sized, R: ?Sized> Readers<T, E, I, R> {
    #[verifier::type_invariant]
    spec fn inv(self) -> bool {
        ascending(self.entries@)
    }
}

impl<T, E, I: Input + ?Sized, R: Reader<T, E, I> + ?Sized> Readers<T, E, I, R> {
    /// The entry that adding `reader` makes.
    pub open spec fn entry(reader: Box<R>) -> Entry<R> {
        Entry { priority: reader.rank() as usize, reader: reader }
    }

    /// The entries that adding each of `readers` makes.
    pub open spec fn entries(readers: Seq<Box<R>>) -> Seq<Entry<R>> {
        Seq::new(readers.len(), |i: int| Self::entry(readers[i]))
    }

    /// The index of the first reader, from `from` on, that does not report
    /// "no match" at position `at` of `text`; the number of readers if there
    /// is none.
    pub open spec fn first_match(&self, text: Text, at: Position, from: int) -> int
        decreases self@.len() - from,
    {
        if from < 0 || from >= self@.len() {
            self@.len() as int
        } else if !(self@[from].reader.outcome(text, at).result is NoMatch) {
            from
        } else {
            self.first_match(text, at, from + 1)
        }
    }

    /// What one pass over the readers finds at position `at` of `text`: the
    /// outcome of the first reader that matches.
    pub open spec fn select(&self, text: Text, at: Position) -> Outcome<T, E> {
        let first = self.first_match(text, at, 0);
        if first < self@.len() {
            self@[first].reader.outcome(text, at)
        } else {
            Outcome::no_match()
        }
    }

    /// What reading one token at position `at` of `text` comes to: passes over
    /// the readers, one after each skip, until one of them ends with a token
    /// or an error, or the text is at its end.
    pub open spec fn reading(&self, text: Text, at: Position) -> Reading<T, E>
        decreases text.end() - at.index,
    {
        if !text.holds(at.index as int) {
            Reading { item: None, at: at, stuck: false }
        } else {
            let found = self.select(text, at);
            match found.result {
                ReaderResult::Token(token) => Reading {
                    item: Some(Ok(token)),
                    at: found.next(text, at),
                    stuck: false,
                },
                ReaderResult::Error(error) => Reading { item: Some(Err(error)), at: at, stuck: false },
                ReaderResult::NoMatch => Reading { item: None, at: at, stuck: true },
                ReaderResult::Empty => if at.index < found.next(text, at).index <= text.end() {
                    self.reading(text, found.next(text, at))
                } else {
                    Reading { item: None, at: at, stuck: true }
                },
            }
        }
    }

    /// The tokens that reading `text` from position `at` gives, one after the
    /// other, to the end of the text or to the first error, which is then the
    /// last item.
    pub open spec fn tokens(&self, text: Text, at: Position) -> Seq<Result<T, E>>
        decreases text.end() - at.index,
    {
        let reading = self.reading(text, at);
        match reading.item {
            None => Seq::empty(),
            Some(Err(error)) => seq![Err(error)],
            Some(Ok(token)) => if at.index < reading.at.index <= text.end() {
                seq![Ok(token)] + self.tokens(text, reading.at)
            } else {
                seq![Ok(token)]
            },
        }
    }

    /// Whether the readers cover `text` from position `at` on: reading it to
    /// its end, or to the first error, is never stuck.
    pub open spec fn covers(&self, text: Text, at: Position) -> bool
        decreases text.end() - at.index,
    {
        let reading = self.reading(text, at);
        &&& !reading.stuck
        &&& (reading.item is Some && reading.item->0 is Ok && at.index < reading.at.index <= text.end()
            ==> self.covers(text, reading.at))
    }

    /// Whether every reader keeps to what a reader owes at every position of
    /// `text`: where it reports a token or a skip, it has consumed one
    /// character at least and none that the text does not hold.
    pub open spec fn lawful(&self, text: Text) -> bool {
        forall|i: int, at: Position|
            0 <= i < self@.len() ==> (#[trigger] self@[i].reader.outcome(text, at)).sound(text, at)
    }

    /// What `first_match` finds: no reader from `from` up to it matches, and
    /// the reader there does, if there is one.
    pub proof fn first_match_is_first(&self, text: Text, at: Position, from: int)
        requires
            0 <= from <= self@.len(),
        ensures
            from <= self.first_match(text, at, from) <= self@.len(),
            forall|i: int|
                from <= i < self.first_match(text, at, from) ==> (#[trigger] self@[i]).reader.outcome(
                    text,
                    at,
                ).result is NoMatch,
            self.first_match(text, at, from) < self@.len() ==> !(self@[self.first_match(
                text,
                at,
                from,
            )].reader.outcome(text, at).result is NoMatch),
        decreases self@.len() - from,
    {
        if from < self@.len() && self@[from].reader.outcome(text, at).result is NoMatch {
            self.first_match_is_first(text, at, from + 1);
        }
    }

    /// Of the readers that match at a position, the one that stands first in
    /// the registry decides: no matching reader stands before it, and where
    /// the registry is in ascending order none has a lower priority.
    pub proof fn earlier_reader_wins(&self, text: Text, at: Position, index: int)
        requires
            0 <= index < self@.len(),
            !(self@[index].reader.outcome(text, at).result is NoMatch),
        ensures
            0 <= self.first_match(text, at, 0) <= index,
            self.select(text, at) == self@[self.first_match(text, at, 0)].reader.outcome(text, at),
            !(self.select(text, at).result is NoMatch),
            ascending(self@) ==> self@[self.first_match(text, at, 0)].priority <= self@[index].priority,
    {
        self.first_match_is_first(text, at, 0);
        let first = self.first_match(text, at, 0);
        if first > index {
            assert(self@[index].reader.outcome(text, at).result is NoMatch);
        }
    }

    /// A skip is silent: reading at a position where the readers skip is
    /// reading at the position after the skip, which lies further on.
    pub proof fn skip_is_silent(&self, text: Text, at: Position)
        requires
            text.holds(at.index as int),
            self.select(text, at).result is Empty,
            self.select(text, at).sound(text, at),
        ensures
            self.reading(text, at) == self.reading(text, self.select(text, at).next(text, at)),
            self.select(text, at).next(text, at).index > at.index,
    {
        sound_outcome_advances(self.select(text, at), text, at);
    }

    /// The outcome that a pass selects is of a reader of the registry, or no
    /// match: with lawful readers it is sound.
    pub proof fn selection_is_sound(&self, text: Text, at: Position)
        requires
            self.lawful(text),
        ensures
            self.select(text, at).sound(text, at),
    {
        self.first_match_is_first(text, at, 0);
        let first = self.first_match(text, at, 0);
        if first < self@.len() {
            assert(self@[first].reader.outcome(text, at).sound(text, at));
        }
    }

    /// Reading a token with lawful readers never goes back, and the position
    /// it ends at is the position it began at after the characters between
    /// the two were consumed. A token means the position has moved. And where
    /// neither a token nor an error comes out, and the readers were not
    /// stuck, the text is at its end.
    pub proof fn reading_moves_on(&self, text: Text, at: Position)
        requires
            self.lawful(text),
        ensures
            at.index <= self.reading(text, at).at.index,
            self.reading(text, at).at == at.after(
                text.span(at.index as int, self.reading(text, at).at.index as int),
            ),
            self.reading(text, at).item matches Some(Ok(_)) ==> at.index < self.reading(text, at).at.index
                <= text.end(),
            self.reading(text, at).item is None && !self.reading(text, at).stuck ==> !text.holds(
                self.reading(text, at).at.index as int,
            ),
        decreases text.end() - at.index,
    {
        if text.holds(at.index as int) {
            let found = self.select(text, at);
            let next = found.next(text, at);
            self.selection_is_sound(text, at);
            if found.commits() {
                sound_outcome_advances(found, text, at);
                if found.result is Empty {
                    self.reading_moves_on(text, next);
                    after_spans(
                        text,
                        at,
                        at.index as int,
                        next.index as int,
                        self.reading(text, at).at.index as int,
                    );
                }
            }
        }
    }

    /// A registry without readers.
    pub fn new() -> (r: Self)
        ensures
            r@ == Seq::<Entry<R>>::empty(),
    {
        Readers { entries: Vec::new(), marker: PhantomData }
    }

    /// The registry of the readers that were added in the order of `entries`.
    pub(crate) fn arranged(entries: Vec<Entry<R>>) -> (r: Self)
        ensures
            r@ == arrange(entries@),
            ascending(r@),
    {
        let ghost waiting = entries@;
        let mut placed: Vec<Entry<R>> = Vec::new();
        assert(waiting.skip(0) =~= waiting);
        for entry in it: entries.into_iter()
            invariant
                it.seq() == waiting,
                ascending(placed@),
                settle(placed@, waiting.skip(it.index())) == arrange(waiting),
        {
            proof {
                assert(waiting.skip(it.index()).drop_first() =~= waiting.skip(it.index() + 1));
            }
            place(&mut placed, entry);
        }
        assert(waiting.skip(waiting.len() as int) =~= Seq::<Entry<R>>::empty());
        Readers { entries: placed, marker: PhantomData }
    }

    /// The number of readers. They stand in ascending order of priority.
    pub fn len(&self) -> (r: usize)
        ensures
            r == self@.len(),
            ascending(self@),
    {
        proof {
            use_type_invariant(self);
        }
        self.entries.len()
    }

    /// The reader that is tried after `index` others, if there are so many.
    pub fn get(&self, index: usize) -> (r: Option<&R>)
        ensures
            r is Some <==> index < self@.len(),
            r is Some ==> r->0 == self@[index as int].reader,
            self@.len() <= usize::MAX,
    {
        if index < self.entries.len() {
            Some(&*self.entries[index].reader)
        } else {
            None
        }
    }

    /// Adds a reader: behind the readers of lower or the same priority, before
    /// those of higher priority.
    pub fn add(&mut self, reader: Box<R>)
        ensures
            final(self)@ == old(self)@.insert(
                slot(old(self)@, Self::entry(reader).priority),
                Self::entry(reader),
            ),
            ascending(final(self)@),
    {
        proof {
            use_type_invariant(&*self);
        }
        let priority = reader.priority();
        let entry = Entry { priority: priority, reader: reader };
        let mut entries: Vec<Entry<R>> = Vec::new();
        core::mem::swap(&mut self.entries, &mut entries);
        place(&mut entries, entry);
        core::mem::swap(&mut self.entries, &mut entries);
    }

    /// Takes out the reader that is tried after `index` others, if there are
    /// so many. The others keep their order.
    pub fn remove(&mut self, index: usize) -> (r: Option<Box<R>>)
        ensures
            index < old(self)@.len() ==> r == Some(old(self)@[index as int].reader) && final(self)@
                == old(self)@.remove(index as int),
            index >= old(self)@.len() ==> r is None && final(self)@ == old(self)@,
            ascending(final(self)@),
    {
        proof {
            use_type_invariant(&*self);
        }
        if index < self.entries.len() {
            let mut entries: Vec<Entry<R>> = Vec::new();
            core::mem::swap(&mut self.entries, &mut entries);
            proof {
                remove_keeps_order(entries@, index as int);
            }
            let entry = entries.remove(index);
            core::mem::swap(&mut self.entries, &mut entries);
            Some(entry.reader)
        } else {
            None
        }
    }
}

} // verus!
