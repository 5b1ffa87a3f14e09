use std::marker::PhantomData;
use vstd::prelude::*;
use vstd::std_specs::convert::FromSpecImpl;

use crate::input::Input;
use crate::reader::Reader;
use crate::order::{arrange, ascending, Entry};
use crate::readers::Readers;

verus! {

/// Readers on their way into a registry, in the order in which they were
/// added.
#[verifier::reject_recursive_types(T)]
#[verifier::reject_recursive_types(E)]
#[verifier::reject_recursive_types(I)]
pub struct ReadersBuilder<T, E, I: ?Sized = dyn Input, R: ?Sized = dyn Reader<T, E, I>> {
    entries: Vec<Entry<R>>,
    marker: PhantomData<(T, E, Box<I>)>,
}

impl<T, E, I: Input + ?Sized, R: Reader<T, E, I> + ?Sized> View for ReadersBuilder<T, E, I, R> {
    type V = Seq<Entry<R>>;

    closed spec fn view(&self) -> Seq<Entry<R>> {
        self.entries@
    }
}

impl<T, E, I: Input + ?Sized, R: Reader<T, E, I> + ?Sized> ReadersBuilder<T, E, I, R> {
    /// A builder without readers.
    pub fn new() -> (r: Self)
        ensures
            r@ == Seq::<Entry<R>>::empty(),
    {
        ReadersBuilder { entries: Vec::new(), marker: PhantomData }
    }

    /// Adds a reader behind those that were added before.
    pub fn add(self, reader: Box<R>) -> (r: Self)
        ensures
            r@ == self@.push(Readers::<T, E, I, R>::entry(reader)),
    {
        let priority = reader.priority();
        let mut entries = self.entries;
        entries.push(Entry { priority: priority, reader: reader });
        ReadersBuilder { entries: entries, marker: PhantomData }
    }

    /// The registry of the readers that were added: by ascending priority,
    /// and among equals in the order in which they were added.
    pub fn build(self) -> (r: Readers<T, E, I, R>)
        ensures
            r@ == arrange(self@),
            ascending(r@),
    {
        Readers::arranged(self.entries)
    }
}

impl<T, E, I: Input + ?Sized, R: Reader<T, E, I> + ?Sized> From<ReadersBuilder<T, E, I, R>> for Readers<T, E, I, R> {
    /// The registry that the builder builds.
    fn from(readers_builder: ReadersBuilder<T, E, I, R>) -> (r: Self)
        ensures
            r@ == arrange(readers_builder@),
            ascending(r@),
    {
        readers_builder.build()
    }
}

impl<T, E, I: Input + ?Sized, R: Reader<T, E, I> + ?Sized> FromSpecImpl<ReadersBuilder<T, E, I, R>> for Readers<T, E, I, R> {
    open spec fn obeys_from_spec() -> bool {
        false
    }

    open spec fn from_spec(readers_builder: ReadersBuilder<T, E, I, R>) -> Self {
        arbitrary()
    }
}

impl<T, E, I: Input + ?Sized, R: Reader<T, E, I> + ?Sized> From<Vec<Box<R>>> for Readers<T, E, I, R> {
    /// The registry of the readers of `vec`, added in their order.
    fn from(vec: Vec<Box<R>>) -> (r: Self)
        ensures
            r@ == arrange(Readers::<T, E, I, R>::entries(vec@)),
            ascending(r@),
    {
        let ghost readers = vec@;
        let mut builder = ReadersBuilder::new();
        for reader in it: vec.into_iter()
            invariant
                it.seq() == readers,
                builder@ == Readers::<T, E, I, R>::entries(readers.take(it.index())),
        {
            proof {
                assert(Readers::<T, E, I, R>::entries(readers.take(it.index() + 1))
                    =~= Readers::<T, E, I, R>::entries(readers.take(it.index())).push(
                    Readers::<T, E, I, R>::entry(reader),
                ));
            }
            builder = builder.add(reader);
        }
        proof {
            assert(readers.take(readers.len() as int) =~= readers);
        }
        builder.build()
    }
}

impl<T, E, I: Input + ?Sized, R: Reader<T, E, I> + ?Sized> FromSpecImpl<Vec<Box<R>>> for Readers<T, E, I, R> {
    open spec fn obeys_from_spec() -> bool {
        false
    }

    open spec fn from_spec(vec: Vec<Box<R>>) -> Self {
        arbitrary()
    }
}

} // verus!
