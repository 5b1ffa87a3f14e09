use vstd::prelude::*;

verus! {

/// A reader in a registry, with the priority it had when it was added.
pub struct Entry<R: ?Sized> {
    pub priority: usize,
    pub reader: Box<R>,
}

/// Whether no entry stands before one of lower priority.
pub open spec fn ascending<R: ?Sized>(entries: Seq<Entry<R>>) -> bool {
    forall|i: int, j: int| 0 <= i < j < entries.len() ==> entries[i].priority <= entries[j].priority
}

/// The place of a new entry of priority `priority` among `entries`: behind
/// every entry whose priority is not higher. It is their number.
pub open spec fn slot<R: ?Sized>(entries: Seq<Entry<R>>, priority: usize) -> int
    decreases entries.len(),
{
    if entries.len() == 0 {
        0
    } else if entries.last().priority <= priority {
        slot(entries.drop_last(), priority) + 1
    } else {
        slot(entries.drop_last(), priority)
    }
}

/// The one index with no higher priority before it and no other from it on
/// is the slot.
pub proof fn slot_divides<R: ?Sized>(entries: Seq<Entry<R>>, priority: usize, at: int)
    requires
        0 <= at <= entries.len(),
        forall|i: int| 0 <= i < at ==> entries[i].priority <= priority,
        forall|i: int| at <= i < entries.len() ==> entries[i].priority > priority,
    ensures
        slot(entries, priority) == at,
    decreases entries.len(),
{
    if entries.len() > 0 {
        if at == entries.len() {
            slot_divides(entries.drop_last(), priority, at - 1);
        } else {
            slot_divides(entries.drop_last(), priority, at);
        }
    }
}

/// Among ascending entries the slot is where the priorities start to exceed
/// `priority`, and an entry of that priority put there leaves them ascending:
/// it stands behind the entries of its own priority that were there before.
pub proof fn slot_keeps_order<R: ?Sized>(entries: Seq<Entry<R>>, entry: Entry<R>)
    requires
        ascending(entries),
    ensures
        0 <= slot(entries, entry.priority) <= entries.len(),
        forall|i: int| 0 <= i < slot(entries, entry.priority) ==> entries[i].priority <= entry.priority,
        forall|i: int|
            slot(entries, entry.priority) <= i < entries.len() ==> entries[i].priority > entry.priority,
        ascending(entries.insert(slot(entries, entry.priority), entry)),
    decreases entries.len(),
{
    let priority = entry.priority;
    let at = slot(entries, priority);
    if entries.len() > 0 {
        let front = entries.drop_last();
        let last = entries.len() - 1;
        assert forall|i: int, j: int| 0 <= i < j < front.len() implies front[i].priority
            <= front[j].priority by {
            assert(front[i] == entries[i] && front[j] == entries[j]);
        }
        slot_keeps_order(front, entry);
        if entries.last().priority <= priority {
            assert forall|i: int| 0 <= i < front.len() implies front[i].priority <= priority by {
                assert(front[i] == entries[i]);
                assert(entries[i].priority <= entries[last].priority);
            }
            slot_divides(front, priority, front.len() as int);
            assert(at == entries.len());
        } else {
            assert(at == slot(front, priority));
            assert forall|i: int| 0 <= i < at implies entries[i].priority <= priority by {
                assert(front[i] == entries[i]);
            }
            assert forall|i: int| at <= i < entries.len() implies entries[i].priority > priority by {
                if i < last {
                    assert(front[i] == entries[i]);
                }
            }
        }
    }
    let grown = entries.insert(at, entry);
    assert forall|i: int, j: int| 0 <= i < j < grown.len() implies grown[i].priority
        <= grown[j].priority by {
        if i < at {
            assert(grown[i] == entries[i]);
        } else if i > at {
            assert(grown[i] == entries[i - 1]);
        }
        if j < at {
            assert(grown[j] == entries[j]);
        } else if j > at {
            assert(grown[j] == entries[j - 1]);
        }
    }
}

/// Ascending entries stay so when one leaves them.
pub proof fn remove_keeps_order<R: ?Sized>(entries: Seq<Entry<R>>, at: int)
    requires
        ascending(entries),
        0 <= at < entries.len(),
    ensures
        ascending(entries.remove(at)),
{
    let rest = entries.remove(at);
    assert forall|i: int, j: int| 0 <= i < j < rest.len() implies rest[i].priority
        <= rest[j].priority by {
        assert(rest[i] == entries[if i < at { i } else { i + 1 }]);
        assert(rest[j] == entries[if j < at { j } else { j + 1 }]);
    }
}

/// What entries come to when each in turn, the first first, is put into its
/// slot among those `placed` before it.
pub open spec fn settle<R: ?Sized>(placed: Seq<Entry<R>>, waiting: Seq<Entry<R>>) -> Seq<Entry<R>>
    decreases waiting.len(),
{
    if waiting.len() == 0 {
        placed
    } else {
        settle(placed.insert(slot(placed, waiting[0].priority), waiting[0]), waiting.drop_first())
    }
}

/// The order in which a registry tries the readers that were added in the
/// order of `entries`.
pub open spec fn arrange<R: ?Sized>(entries: Seq<Entry<R>>) -> Seq<Entry<R>> {
    settle(Seq::empty(), entries)
}

/// Puts `entry` into its slot among ascending `entries`, which stay
/// ascending.
pub(crate) fn place<R: ?Sized>(entries: &mut Vec<Entry<R>>, entry: Entry<R>)
    requires
        ascending(old(entries)@),
    ensures
        final(entries)@ == old(entries)@.insert(slot(old(entries)@, entry.priority), entry),
        ascending(final(entries)@),
{
    let mut at: usize = 0;
    while at < entries.len() && entries[at].priority <= entry.priority
        invariant
            at <= entries@.len(),
            entries@ == old(entries)@,
            ascending(entries@),
            forall|i: int| 0 <= i < at ==> entries@[i].priority <= entry.priority,
        decreases entries@.len() - at,
    {
        at += 1;
    }
    proof {
        assert forall|i: int| at <= i < entries@.len() implies entries@[i].priority
            > entry.priority by {
            assert(entries@[at as int].priority <= entries@[i].priority);
        }
        slot_divides(entries@, entry.priority, at as int);
        slot_keeps_order(entries@, entry);
    }
    entries.insert(at, entry);
}

/// Putting one more entry behind those that wait is putting it into its slot
/// among what the others come to.
pub proof fn settle_push<R: ?Sized>(placed: Seq<Entry<R>>, waiting: Seq<Entry<R>>, entry: Entry<R>)
    ensures
        settle(placed, waiting.push(entry)) == settle(placed, waiting).insert(
            slot(settle(placed, waiting), entry.priority),
            entry,
        ),
    decreases waiting.len(),
{
    let more = waiting.push(entry);
    if waiting.len() == 0 {
        assert(more[0] == entry);
        assert(more.drop_first() =~= Seq::<Entry<R>>::empty());
        assert(settle(placed, more) == settle(
            placed.insert(slot(placed, entry.priority), entry),
            more.drop_first(),
        ));
    } else {
        let first = waiting[0];
        assert(more[0] == first);
        settle_push(placed.insert(slot(placed, first.priority), first), waiting.drop_first(), entry);
        assert(more.drop_first() =~= waiting.drop_first().push(entry));
    }
}

/// A reader that is added last goes into its slot among the others as they
/// were arranged without it.
pub proof fn arrange_push<R: ?Sized>(entries: Seq<Entry<R>>, entry: Entry<R>)
    ensures
        arrange(entries.push(entry)) == arrange(entries).insert(
            slot(arrange(entries), entry.priority),
            entry,
        ),
{
    settle_push(Seq::empty(), entries, entry);
}

/// The readers of a registry stand in ascending order of priority, and they
/// are the readers that were added: each as often as it was added.
pub proof fn arrange_sorts<R: ?Sized>(entries: Seq<Entry<R>>)
    ensures
        ascending(arrange(entries)),
        arrange(entries).len() == entries.len(),
        arrange(entries).to_multiset() == entries.to_multiset(),
    decreases entries.len(),
{
    broadcast use vstd::seq_lib::to_multiset_insert, vstd::seq_lib::to_multiset_build;

    if entries.len() > 0 {
        let front = entries.drop_last();
        let last = entries.last();
        assert(entries =~= front.push(last));
        arrange_sorts(front);
        arrange_push(front, last);
        slot_keeps_order(arrange(front), last);
    } else {
        assert(entries =~= Seq::<Entry<R>>::empty());
    }
}

/// Whether an entry has priority `priority`.
pub open spec fn of_priority<R: ?Sized>(priority: usize) -> spec_fn(Entry<R>) -> bool {
    |entry: Entry<R>| entry.priority == priority
}

/// Readers of one priority are tried in the order in which they were added:
/// arranging leaves the entries of each priority in their order.
pub proof fn arrange_keeps_ties<R: ?Sized>(entries: Seq<Entry<R>>, priority: usize)
    ensures
        arrange(entries).filter(of_priority(priority)) == entries.filter(of_priority(priority)),
    decreases entries.len(),
{
    let keep = of_priority::<R>(priority);
    reveal(Seq::filter);
    if entries.len() > 0 {
        let front = entries.drop_last();
        let last = entries.last();
        let placed = arrange(front);
        let at = slot(placed, last.priority);
        assert(entries =~= front.push(last));
        arrange_keeps_ties(front, priority);
        arrange_push(front, last);
        arrange_sorts(front);
        slot_keeps_order(placed, last);
        let head = placed.subrange(0, at);
        let tail = placed.subrange(at, placed.len() as int);
        assert(placed =~= head + tail);
        assert(placed.insert(at, last) =~= head.push(last) + tail);
        Seq::filter_distributes_over_add(head, tail, keep);
        Seq::filter_distributes_over_add(head.push(last), tail, keep);
        assert(head.push(last).drop_last() =~= head);
        if last.priority == priority {
            none_kept(tail, keep);
            assert(head.filter(keep) + tail.filter(keep) =~= head.filter(keep));
            assert(head.push(last).filter(keep) + tail.filter(keep) =~= head.filter(keep).push(last));
        }
    }
}

/// A filter that rejects every item keeps none.
proof fn none_kept<A>(items: Seq<A>, keep: spec_fn(A) -> bool)
    requires
        forall|i: int| 0 <= i < items.len() ==> !keep(#[trigger] items[i]),
    ensures
        items.filter(keep) == Seq::<A>::empty(),
    decreases items.len(),
{
    reveal(Seq::filter);
    if items.len() > 0 {
        assert forall|i: int| 0 <= i < items.drop_last().len() implies !keep(
            #[trigger] items.drop_last()[i],
        ) by {
            assert(items.drop_last()[i] == items[i]);
        }
        none_kept(items.drop_last(), keep);
    }
}

} // verus!
