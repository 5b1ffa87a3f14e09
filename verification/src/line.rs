use std::ops::Deref;
use vstd::prelude::*;
use vstd::std_specs::cmp::PartialEqSpecImpl;
use vstd::std_specs::convert::FromSpecImpl;
use vstd::string::StrSliceExecFns;

use crate::input::Input;
use crate::state::State;
use crate::text::{clip_in_reach, Text};

verus! {

/// One line of the input, without its line break, and the offset it was found
/// at. Positions in a line are the positions of the input it came from.
#[derive(Debug, Eq)]
pub struct Line {
    offset: usize,
    line: String,
}

impl View for Line {
    type V = Seq<char>;

    closed spec fn view(&self) -> Seq<char> {
        self.line@
    }
}

impl Line {
    /// The offset of the line's first character, in contracts.
    pub closed spec fn start(&self) -> nat {
        self.offset as nat
    }

    /// The line that holds the characters of `line`, found at `offset`.
    pub fn new(offset: usize, line: String) -> (r: Self)
        ensures
            r@ == line@,
            r.start() == offset,
    {
        Line { offset: offset, line: line }
    }

    /// The offset of the line's first character.
    pub fn offset(&self) -> (r: usize)
        ensures
            r == self.start(),
    {
        self.offset
    }

    /// The line as a string.
    pub fn as_string(&self) -> (r: &String)
        ensures
            r@ == self@,
    {
        &self.line
    }
}

impl PartialEq for Line {
    /// Two lines are equal when their characters are, wherever they were found.
    fn eq(&self, other: &Self) -> (r: bool) {
        self.line == other.line
    }
}

impl PartialEqSpecImpl for Line {
    open spec fn obeys_eq_spec() -> bool {
        true
    }

    open spec fn eq_spec(&self, other: &Self) -> bool {
        self@ == other@
    }
}

impl<'a> From<&'a str> for Line {
    /// The line that holds the characters of `string`, found at offset 0.
    fn from(string: &'a str) -> (r: Self)
        ensures
            r@ == string@,
            r.start() == 0,
    {
        Line { offset: 0, line: string.to_owned() }
    }
}

impl<'a> FromSpecImpl<&'a str> for Line {
    open spec fn obeys_from_spec() -> bool {
        false
    }

    open spec fn from_spec(string: &'a str) -> Self {
        arbitrary()
    }
}

impl Deref for Line {
    type Target = String;

    fn deref(&self) -> (r: &String)
        ensures
            r@ == self@,
    {
        &self.line
    }
}

impl Input for Line {
    open spec fn text(&self) -> Text {
        Text::clip(self.start(), self@)
    }

    fn peek(&mut self, state: &State, offset: usize) -> (r: Option<char>) {
        proof {
            clip_in_reach(self.start(), self@);
        }
        let index = state.index();
        if offset > usize::MAX - index {
            return None;
        }
        let at: usize = index + offset;
        if at < self.offset || at >= usize::MAX - 1 {
            return None;
        }
        let nth: usize = at - self.offset;
        let line = self.line.as_str();
        if nth < line.unicode_len() {
            Some(line.get_char(nth))
        } else {
            None
        }
    }
}

} // verus!
