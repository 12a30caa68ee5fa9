//! What an event does to the registry, and what holds of every run of
//! events.

use crate::slots::Slots;
use crate::token::Token;
use vstd::prelude::*;

verus! {

/// What became of an event.
#[derive(PartialEq, Eq, Clone, Copy, Debug, Structural)]
pub enum Dispatch {
    /// The token addressed no machine: the event was dropped.
    Stale,
    /// The callback returned the machine, which is back in its slot.
    Kept,
    /// The callback returned nothing: the machine is gone and its slot free.
    Destroyed,
    /// The machine's `register` failed: it was aborted and its slot freed.
    Evicted,
}

/// How an event addressed at `token` with the given outcome takes the
/// registry from `before` to `after`.
///
/// A stale event changes nothing. Otherwise the slot of the machine called is
/// occupied as before or free, by the outcome; every other slot is as it was,
/// but that machines may have been added.
pub open spec fn dispatched<M>(
    before: Slots<M>,
    after: Slots<M>,
    token: Token,
    outcome: Dispatch,
) -> bool {
    let i = token.index();
    match outcome {
        Dispatch::Stale => !before.matches(token) && after == before,
        Dispatch::Kept => {
            &&& before.matches(token)
            &&& after.capacity() == before.capacity()
            &&& after.occupied(i)
            &&& after.generations[i] == before.generations[i]
            &&& after.remove(i).grown_from(before.remove(i))
        },
        _ => {
            &&& before.matches(token)
            &&& after.capacity() == before.capacity()
            &&& !after.in_use(i)
            &&& after.remove(i).grown_from(before.remove(i))
        },
    }
}

/// What a callback leaves of the registry, once its result is written back:
/// apart from the slot of the machine called, machines were only added.
pub proof fn lemma_callback_frame<M>(before: Slots<M>, during: Slots<M>, after: Slots<M>, i: usize)
    requires
        before.wf(),
        during.wf(),
        during.grown_from(before.vacate(i)),
        during.held(i),
        after.generations == during.generations || after.generations == during.generations.remove(i),
        after.counter_next == during.counter_next,
        after.machines.len() == during.machines.len(),
        forall|j: int|
            0 <= j < after.machines.len() && j != i ==> after.machines[j] == during.machines[j],
    ensures
        after.remove(i).grown_from(before.remove(i)),
{
    let a = after.remove(i);
    let b = before.remove(i);
    let t = before.vacate(i);
    assert forall|j: usize|
        #![trigger a.in_use(j)]
        #![trigger b.in_use(j)]
        b.in_use(j) implies a.in_use(j) && a.generations[j] == b.generations[j] && a.machines[j as int]
        == b.machines[j as int] by {
        assert(j != i);
        assert(t.in_use(j));
        assert(during.in_use(j));
    }
    assert forall|j: usize|
        #![trigger a.in_use(j)]
        #![trigger b.in_use(j)]
        a.in_use(j) && !b.in_use(j) implies a.occupied(j) && a.generations[j] >= b.counter_next by {
        assert(j != i);
        assert(during.in_use(j));
        assert(!t.in_use(j));
        assert(during.occupied(j));
    }
}

/// An event addressed at a machine lets the registry evolve: no generation
/// comes back, so a token retired before the event is retired after it.
pub proof fn lemma_dispatched_evolves<M>(
    before: Slots<M>,
    after: Slots<M>,
    token: Token,
    outcome: Dispatch,
)
    requires
        before.wf(),
        dispatched(before, after, token, outcome),
    ensures
        after.evolved_from(before),
{
    let i = token.index();
    if outcome != Dispatch::Stale {
        assert forall|j: usize| #[trigger] after.in_use(j) implies (before.in_use(j)
            && after.generations[j] == before.generations[j]) || after.generations[j]
            >= before.counter_next by {
            if j != i {
                assert(after.remove(i).in_use(j));
                if before.remove(i).in_use(j) {
                    assert(before.in_use(j));
                }
            }
        }
    }
}

/// The slots that were in use in `before` and are free in `after`.
pub open spec fn freed<M>(before: Slots<M>, after: Slots<M>) -> Set<usize> {
    Set::new(|j: usize| before.in_use(j) && !after.in_use(j))
}

/// An event frees the slot of the machine it was for where the machine is
/// destroyed or evicted, and no slot else.
pub proof fn lemma_freed_by_dispatch<M>(
    before: Slots<M>,
    after: Slots<M>,
    token: Token,
    outcome: Dispatch,
)
    requires
        dispatched(before, after, token, outcome),
    ensures
        freed(before, after) == (if outcome == Dispatch::Stale || outcome == Dispatch::Kept {
            Set::<usize>::empty()
        } else {
            Set::<usize>::empty().insert(token.index())
        }),
{
    let i = token.index();
    let expected = if outcome == Dispatch::Stale || outcome == Dispatch::Kept {
        Set::<usize>::empty()
    } else {
        Set::<usize>::empty().insert(i)
    };
    assert forall|j: usize| freed(before, after).contains(j) == expected.contains(j) by {
        if outcome != Dispatch::Stale && j != i && before.in_use(j) {
            assert(before.remove(i).in_use(j));
            assert(after.remove(i).in_use(j));
        }
    }
    assert(freed(before, after) =~= expected);
}

/// One event of a run: the token it was addressed at, what became of it, and
/// the registry it left.
pub struct Event<M> {
    pub token: Token,
    pub outcome: Dispatch,
    pub after: Slots<M>,
}

/// Whether `events` can happen one after the other, from the registry `start`.
pub open spec fn run<M>(start: Slots<M>, events: Seq<Event<M>>) -> bool
    decreases events.len(),
{
    if events.len() == 0 {
        true
    } else {
        &&& dispatched(start, events[0].after, events[0].token, events[0].outcome)
        &&& run(events[0].after, events.skip(1))
    }
}

/// The number of slots freed over a run by events other than evictions.
pub open spec fn freed_by_machines<M>(start: Slots<M>, events: Seq<Event<M>>) -> nat
    decreases events.len(),
{
    if events.len() == 0 {
        0
    } else {
        let here = if events[0].outcome == Dispatch::Evicted {
            0
        } else {
            freed(start, events[0].after).len()
        };
        here + freed_by_machines(events[0].after, events.skip(1))
    }
}

/// The number of callbacks of a run that returned nothing.
pub open spec fn destroy_returns<M>(events: Seq<Event<M>>) -> nat
    decreases events.len(),
{
    if events.len() == 0 {
        0
    } else {
        let here: nat = if events[0].outcome == Dispatch::Destroyed {
            1
        } else {
            0
        };
        here + destroy_returns(events.skip(1))
    }
}

/// Machines end by their own decision alone: over any run, as many slots are
/// freed, evictions apart, as callbacks have returned nothing.
pub proof fn lemma_teardown_count<M>(start: Slots<M>, events: Seq<Event<M>>)
    requires
        run(start, events),
    ensures
        freed_by_machines(start, events) == destroy_returns(events),
    decreases events.len(),
{
    if events.len() > 0 {
        let first = events[0];
        lemma_freed_by_dispatch(start, first.after, first.token, first.outcome);
        lemma_teardown_count(first.after, events.skip(1));
    }
}

/// The registry that a run from `start` ends in.
pub open spec fn end_of<M>(start: Slots<M>, events: Seq<Event<M>>) -> Slots<M> {
    if events.len() == 0 {
        start
    } else {
        events.last().after
    }
}

/// A run goes on with any event that can happen where it has ended.
pub proof fn lemma_run_push<M>(start: Slots<M>, events: Seq<Event<M>>, event: Event<M>)
    requires
        run(start, events),
        dispatched(end_of(start, events), event.after, event.token, event.outcome),
    ensures
        run(start, events.push(event)),
        end_of(start, events.push(event)) == event.after,
    decreases events.len(),
{
    let longer = events.push(event);
    if events.len() == 0 {
        assert(longer[0] == event);
        assert(longer.skip(1) =~= Seq::<Event<M>>::empty());
        assert(run(event.after, longer.skip(1)));
    } else {
        assert(longer[0] == events[0]);
        assert(longer.skip(1) =~= events.skip(1).push(event));
        assert(end_of(events[0].after, events.skip(1)) == end_of(start, events)) by {
            if events.len() > 1 {
                assert(events.skip(1).last() == events.last());
            }
        }
        lemma_run_push(events[0].after, events.skip(1), event);
        assert(run(events[0].after, longer.skip(1)));
    }
    assert(longer.last() == event);
}

/// The registry before event `k` of a run from `start`.
pub open spec fn before_event<M>(start: Slots<M>, events: Seq<Event<M>>, k: int) -> Slots<M> {
    end_of(start, events.take(k))
}

/// A further event leaves the registry before each earlier event as it was,
/// and finds the registry in which the run had ended.
pub proof fn lemma_before_push<M>(start: Slots<M>, events: Seq<Event<M>>, event: Event<M>, k: int)
    requires
        0 <= k <= events.len(),
    ensures
        before_event(start, events.push(event), k) == (if k < events.len() {
            before_event(start, events, k)
        } else {
            end_of(start, events)
        }),
{
    assert(events.push(event).take(k) =~= events.take(k));
    if k == events.len() {
        assert(events.take(k) =~= events);
    }
}

/// Whether `events` are one event for each of the first slots, in the order
/// of the slots, each addressed at the bare index of its slot.
pub open spec fn one_per_slot<M>(events: Seq<Event<M>>) -> bool {
    forall|k: int|
        0 <= k < events.len() ==> (#[trigger] events[k]).token == Token::bare(k as usize)
            && events[k].outcome != Dispatch::Evicted
}

} // verus!
