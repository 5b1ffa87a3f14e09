use vstd::prelude::*;

use crate::state::{after_concat, after_push, Position};

verus! {

/// The first offset that no position can hold a character at. A position
/// counts its line and column from 1, so both may run one ahead of the
/// offset, and the offset itself stops one short of that.
pub open spec fn reach() -> nat {
    (usize::MAX - 1) as nat
}

/// What holds of every character of a line but its line break.
pub open spec fn within_line() -> spec_fn(char) -> bool {
    |ch: char| ch != '\n'
}

/// A character source as the contracts see it: the characters it holds, and
/// the absolute offset of the first of them.
pub struct Text {
    pub start: nat,
    pub chars: Seq<char>,
}

impl Text {
    /// The text that holds `chars` from offset `start`, as far as positions
    /// reach.
    pub open spec fn clip(start: nat, chars: Seq<char>) -> Text {
        if start < reach() {
            Text { start: start, chars: chars.take(vstd::math::min(chars.len() as int, reach() - start)) }
        } else {
            Text { start: start, chars: Seq::empty() }
        }
    }

    /// The offset right after the last character.
    pub open spec fn end(self) -> nat {
        self.start + self.chars.len()
    }

    /// Whether there is a character at offset `index`.
    pub open spec fn holds(self, index: int) -> bool {
        self.start <= index < self.end()
    }

    /// The character at offset `index`, where there is one.
    pub open spec fn at(self, index: int) -> char
        recommends
            self.holds(index),
    {
        self.chars[index - self.start]
    }

    /// The character at offset `index`, if there is one.
    pub open spec fn char_at(self, index: int) -> Option<char> {
        if self.holds(index) {
            Some(self.at(index))
        } else {
            None
        }
    }

    /// The number of characters from offset `index` on.
    pub open spec fn remaining(self, index: int) -> nat {
        if self.holds(index) {
            (self.end() - index) as nat
        } else {
            0
        }
    }

    /// The characters at the offsets from `from` up to, not including, `to`.
    pub open spec fn span(self, from: int, to: int) -> Seq<char> {
        if from < to {
            Seq::new((to - from) as nat, |k: int| self.at(from + k))
        } else {
            Seq::empty()
        }
    }

    /// The first offset, from `from` on, that holds no character or one that
    /// `keep` rejects.
    pub open spec fn run_end(self, from: int, keep: spec_fn(char) -> bool) -> int
        decreases self.end() - from,
    {
        if self.holds(from) && keep(self.at(from)) {
            self.run_end(from + 1, keep)
        } else {
            from
        }
    }

    /// The offset of the first line break from `from` on, or where the text
    /// ends without one.
    pub open spec fn line_end(self, from: int) -> int {
        self.run_end(from, within_line())
    }

    /// The offset where the next line starts: right after the line break that
    /// `line_end` found, or where the text ends.
    pub open spec fn line_stop(self, from: int) -> int {
        if self.holds(self.line_end(from)) {
            self.line_end(from) + 1
        } else {
            self.line_end(from)
        }
    }
}

/// A clipped text holds the characters it was made of, at their offsets, up
/// to the reach of positions and no further.
pub proof fn clip_in_reach(start: nat, chars: Seq<char>)
    ensures
        Text::clip(start, chars).start == start,
        forall|i: int| #[trigger]
            Text::clip(start, chars).holds(i) <==> start <= i < reach() && i - start < chars.len(),
        forall|i: int| #[trigger]
            Text::clip(start, chars).holds(i) ==> Text::clip(start, chars).at(i) == chars[i - start],
{
}

/// What `run_end` finds: every offset of the run holds a character that
/// `keep` accepts, and the run stops at the first offset that does not.
pub proof fn run_end_is_first(text: Text, from: int, keep: spec_fn(char) -> bool)
    ensures
        from <= text.run_end(from, keep),
        text.holds(from) ==> text.run_end(from, keep) <= text.end(),
        forall|i: int|
            from <= i < text.run_end(from, keep) ==> #[trigger] text.holds(i) && keep(text.at(i)),
        !(text.holds(text.run_end(from, keep)) && keep(text.at(text.run_end(from, keep)))),
    decreases text.end() - from,
{
    if text.holds(from) && keep(text.at(from)) {
        run_end_is_first(text, from + 1, keep);
        assert forall|i: int| from <= i < text.run_end(from, keep) implies #[trigger] text.holds(i)
            && keep(text.at(i)) by {
            if i > from {
                assert(from + 1 <= i < text.run_end(from + 1, keep));
            }
        }
    }
}

/// The span up to and including offset `to` is the span up to `to` and the
/// character there.
pub proof fn span_push(text: Text, from: int, to: int)
    requires
        from <= to,
    ensures
        text.span(from, to + 1) == text.span(from, to).push(text.at(to)),
{
    assert(text.span(from, to + 1) =~= text.span(from, to).push(text.at(to)));
}

/// Consuming the character at offset `to` after the span up to `to` is
/// consuming the span up to and including `to`.
pub proof fn after_span_push(text: Text, origin: Position, from: int, to: int)
    requires
        from <= to,
    ensures
        origin.after(text.span(from, to)).advance(text.at(to) == '\n') == origin.after(
            text.span(from, to + 1),
        ),
{
    span_push(text, from, to);
    after_push(origin, text.span(from, to), text.at(to));
}

/// Consuming the span up to `middle` and then the span from there is
/// consuming the span over both.
pub proof fn after_spans(text: Text, origin: Position, from: int, middle: int, to: int)
    requires
        from <= middle <= to,
    ensures
        text.span(from, middle) + text.span(middle, to) == text.span(from, to),
        origin.after(text.span(from, middle)).after(text.span(middle, to)) == origin.after(
            text.span(from, to),
        ),
{
    assert(text.span(from, middle) + text.span(middle, to) =~= text.span(from, to));
    after_concat(origin, text.span(from, middle), text.span(middle, to));
}

} // verus!
