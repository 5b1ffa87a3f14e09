use vstd::prelude::*;
use vstd::std_specs::iter::IteratorSpec;

use crate::input::Input;
use crate::state::State;
use crate::text::{clip_in_reach, Text};

verus! {

/// `Chars::as_str` views what the iterator has left to give as a string: its
/// characters are the characters that the iterator will give.
pub assume_specification<'a>[ std::str::Chars::<'a>::as_str ](iter: &std::str::Chars<'a>) -> (r: &'a str)
    ensures
        r@ == IteratorSpec::remaining(iter),
;

/// A character source that holds all its characters, and counts how many of
/// them it has given out.
pub struct Chars {
    index: usize,
    vec: Vec<char>,
}

impl Chars {
    #[verifier::type_invariant]
    spec fn inv(self) -> bool {
        self.index <= self.vec@.len()
    }

    /// The characters of the source, in contracts.
    pub closed spec fn chars(&self) -> Seq<char> {
        self.vec@
    }

    /// How many characters were given out: all those before this one.
    pub closed spec fn given(&self) -> nat {
        self.index as nat
    }

    /// The source that holds the characters that `iter` has left.
    pub fn new(iter: std::str::Chars<'_>) -> (r: Self)
        ensures
            r.chars() == IteratorSpec::remaining(&iter),
            r.given() == 0,
    {
        let text = iter.as_str();
        let mut vec: Vec<char> = Vec::new();
        for ch in it: text.chars()
            invariant
                it.seq() == text@,
                vec@ == it.seq().take(it.index()),
        {
            vec.push(ch);
            assert(it.seq().take(it.index() + 1) =~= it.seq().take(it.index()).push(ch));
        }
        assert(vec@ =~= text@);
        Chars { index: 0, vec: vec }
    }

    /// The character at offset `index`, if there is one. Every character up
    /// to it counts as given out from then on.
    pub fn char_at(&mut self, index: usize) -> (r: Option<char>)
        ensures
            final(self).chars() == old(self).chars(),
            r == (if index < old(self).chars().len() {
                Some(old(self).chars()[index as int])
            } else {
                None
            }),
            final(self).given() == (if index < old(self).given() {
                old(self).given()
            } else if index < old(self).chars().len() {
                (index + 1) as nat
            } else {
                old(self).chars().len()
            }),
    {
        proof {
            use_type_invariant(&*self);
        }
        if index < self.index {
            Some(self.vec[index])
        } else if index < self.vec.len() {
            self.index = index + 1;
            Some(self.vec[index])
        } else {
            self.index = self.vec.len();
            None
        }
    }

    /// Gives out the first character that was not given out yet.
    pub fn next(&mut self) -> (r: Option<char>)
        ensures
            final(self).chars() == old(self).chars(),
            r == (if old(self).given() < old(self).chars().len() {
                Some(old(self).chars()[old(self).given() as int])
            } else {
                None
            }),
            final(self).given() == old(self).given() + (if r is Some { 1nat } else { 0nat }),
    {
        proof {
            use_type_invariant(&*self);
        }
        if self.index < self.vec.len() {
            let ch = self.vec[self.index];
            self.index = self.index + 1;
            Some(ch)
        } else {
            None
        }
    }

    /// Gives out all the characters that were not given out yet.
    pub fn collect(self) -> (r: Vec<char>)
        ensures
            r@ == self.chars().skip(self.given() as int),
    {
        proof {
            use_type_invariant(&self);
        }
        let mut rest: Vec<char> = Vec::new();
        let mut at: usize = self.index;
        while at < self.vec.len()
            invariant
                self.index <= at <= self.vec@.len(),
                rest@ == self.vec@.subrange(self.index as int, at as int),
            decreases self.vec@.len() - at,
        {
            rest.push(self.vec[at]);
            at += 1;
            assert(self.vec@.subrange(self.index as int, at as int) =~= self.vec@.subrange(
                self.index as int,
                at - 1,
            ).push(self.vec@[at - 1]));
        }
        assert(rest@ =~= self.vec@.skip(self.index as int));
        rest
    }
}

impl Input for Chars {
    open spec fn text(&self) -> Text {
        Text::clip(0, self.chars())
    }

    /// A look ahead counts as giving out: every character up to the one that
    /// was looked at counts as given out from then on, and none does where the
    /// look went past the end of what positions reach.
    fn peek(&mut self, state: &State, offset: usize) -> (r: Option<char>)
        ensures
            final(self).chars() == old(self).chars(),
            old(self).given() <= final(self).given() <= old(self).chars().len(),
            r is Some ==> final(self).given() > state@.index + offset,
    {
        proof {
            clip_in_reach(0, self.chars());
            use_type_invariant(&*self);
        }
        let index = state.index();
        if index >= usize::MAX - 1 || offset >= usize::MAX - 1 - index {
            None
        } else {
            self.char_at(index + offset)
        }
    }
}

} // verus!
