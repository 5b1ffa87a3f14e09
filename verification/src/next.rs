use vstd::prelude::*;

use crate::input::Input;
use crate::read::read;
use crate::reader::Reader;
use crate::readers::Readers;
use crate::state::State;

verus! {

/// The next token at `state`, or the error in its place, or `None` at the end
/// of the input: what `read` returns.
pub fn next<T, E, I: Input + ?Sized, R: Reader<T, E, I> + ?Sized>(
    readers: &Readers<T, E, I, R>,
    input: &mut I,
    state: &mut State,
) -> (r: Option<Result<T, E>>)
    requires
        !readers.reading(old(input).text(), old(state)@).stuck,
    ensures
        final(input).text() == old(input).text(),
        r == readers.reading(old(input).text(), old(state)@).item,
        final(state)@ == readers.reading(old(input).text(), old(state)@).at,
{
    read(readers, input, state)
}

} // verus!
