//! The slot registry: the single owner of every machine.
//!
//! Slot indices are handed out, and reused, by a `slab::Slab`; it also keeps
//! the generation that each slot in use was stamped with. The machines
//! themselves stand beside it, one place per index.

use crate::token::Token;
use vstd::prelude::*;

pub use crate::model::{Change, Slots};

verus! {

/// The slots in use and the generation of each, kept in a
/// `slab::Slab<u64, usize>`.
///
/// Verus does not look inside: what the table holds is `table_entries`, and
/// the number of slots it was made with is `table_limit`. The table holds
/// plain generations so that what it holds can be said; the machines, whose
/// type is the application's, stand beside it in the registry.
#[verifier::external_body]
pub struct SlotTable {
    inner: slab::Slab<u64, usize>,
}

/// What a table holds: the generation of each slot in use, by index.
pub uninterp spec fn table_entries(t: SlotTable) -> Map<usize, u64>;

/// The number of slots that a table was made with.
pub uninterp spec fn table_limit(t: SlotTable) -> usize;

/// `slab::Slab::new`: a table of `capacity` slots, none of them in use.
///
/// `capacity + 1` is computed on the way, so `usize::MAX` is left out.
#[verifier::external_body]
fn table_new(capacity: usize) -> (t: SlotTable)
    requires
        capacity < usize::MAX,
    ensures
        table_entries(t) == (Map::<usize, u64>::empty()),
        table_limit(t) == capacity,
{
    SlotTable { inner: slab::Slab::new(capacity) }
}

/// `slab::Slab::insert`: puts `generation` into a slot that was not in use
/// and returns its index, or returns `None` and changes nothing.
///
/// The slab keeps its unused slots in a chain and fails only when the chain
/// is empty, that is when each of its slots is in use. Which of the unused
/// slots it picks is left open here.
#[verifier::external_body]
fn table_insert(t: &mut SlotTable, generation: u64) -> (r: Option<usize>)
    ensures
        table_limit(*final(t)) == table_limit(*old(t)),
        r is None <==> (forall|i: usize|
            i < table_limit(*old(t)) ==> table_entries(*old(t)).dom().contains(i)),
        match r {
            Some(i) => {
                &&& i < table_limit(*old(t))
                &&& !table_entries(*old(t)).dom().contains(i)
                &&& table_entries(*final(t)) == table_entries(*old(t)).insert(i, generation)
            },
            None => *final(t) == *old(t),
        },
{
    t.inner.insert(generation).ok()
}

/// `slab::Slab::remove` on a slot in use: frees the slot and returns what it
/// held.
///
/// On a slot that is not in use the slab would damage its chain of unused
/// slots, so such a call is left out.
#[verifier::external_body]
fn table_remove(t: &mut SlotTable, i: usize) -> (r: Option<u64>)
    requires
        i < table_limit(*old(t)),
        table_entries(*old(t)).dom().contains(i),
    ensures
        table_limit(*final(t)) == table_limit(*old(t)),
        table_entries(*final(t)) == table_entries(*old(t)).remove(i),
        r == Some(table_entries(*old(t))[i]),
{
    t.inner.remove(i)
}

/// `slab::Slab::count`: the number of slots in use.
#[verifier::external_body]
fn table_count(t: &SlotTable) -> (n: usize)
    ensures
        n == table_entries(*t).dom().len(),
{
    t.inner.count()
}

/// `slab::Slab::get`: the generation of slot `i` if it is in use.
#[verifier::external_body]
fn table_get(t: &SlotTable, i: usize) -> (r: Option<u64>)
    requires
        i < table_limit(*t),
    ensures
        r == (if table_entries(*t).dom().contains(i) {
            Some(table_entries(*t)[i])
        } else {
            None
        }),
{
    t.inner.get(i).copied()
}

/// One occupied slot: a machine and the generation it was inserted with.
pub struct EventMachineSlot<M> {
    pub machine: M,
    pub counter: u64,
}

/// The slot registry.
///
/// A slot is free, occupied by a machine, or held: in use while its machine is
/// away, so that no insertion takes its index meanwhile.
pub struct Registry<M> {
    table: SlotTable,
    machines: Vec<Option<M>>,
    counter_next: u64,
}

impl<M> View for Registry<M> {
    type V = Slots<M>;

    closed spec fn view(&self) -> Slots<M> {
        Slots {
            generations: table_entries(self.table),
            machines: self.machines@,
            counter_next: self.counter_next,
        }
    }
}

impl<M> Registry<M> {
    /// The registry's invariant: that of its model, over a table of as many
    /// slots as there are places for machines.
    pub closed spec fn wf(&self) -> bool {
        &&& self@.wf()
        &&& table_limit(self.table) == self.machines@.len()
    }

    /// A sound registry has a sound model.
    pub proof fn lemma_wf(&self)
        requires
            self.wf(),
        ensures
            self@.wf(),
    {
    }

    /// A registry of `capacity` slots, all free. Generations start at 0.
    pub fn new(capacity: usize) -> (registry: Registry<M>)
        requires
            capacity < usize::MAX,
        ensures
            registry.wf(),
            registry@.capacity() == capacity,
            registry@.is_empty(),
            registry@.counter_next == 0,
    {
        let table = table_new(capacity);
        let mut machines: Vec<Option<M>> = Vec::new();
        let mut n: usize = 0;
        while n < capacity
            invariant
                n <= capacity,
                machines@.len() == n,
                forall|i: int| 0 <= i < n ==> machines@[i] is None,
            decreases capacity - n,
        {
            machines.push(None);
            n = n + 1;
        }
        Registry { table, machines, counter_next: 0 }
    }

    /// The number of slots.
    pub fn capacity(&self) -> (capacity: usize)
        requires
            self.wf(),
        ensures
            capacity == self@.capacity(),
    {
        self.machines.len()
    }

    /// The generation that the next insertion gets.
    pub fn counter_next(&self) -> (counter: u64)
        ensures
            counter == self@.counter_next,
    {
        self.counter_next
    }

    /// The generation of slot `index` if the slot is in use.
    pub fn generation(&self, index: usize) -> (generation: Option<u64>)
        requires
            self.wf(),
        ensures
            generation == (if self@.in_use(index) {
                Some(self@.generations[index])
            } else {
                None
            }),
    {
        if index < self.machines.len() {
            table_get(&self.table, index)
        } else {
            None
        }
    }

    /// The number of slots in use.
    pub fn count(&self) -> (n: usize)
        requires
            self.wf(),
        ensures
            n == self@.generations.dom().len(),
            n == 0 <==> self@.is_empty(),
    {
        let n = table_count(&self.table);
        proof {
            if n == 0 {
                assert(self@.generations.dom() =~= Set::<usize>::empty());
            } else if self@.is_empty() {
                assert forall|i: usize| !self@.generations.dom().contains(i) by {
                    assert(!self@.in_use(i));
                }
                assert(self@.generations.dom() =~= Set::<usize>::empty());
            }
        }
        n
    }

    /// Whether `handle` addresses a machine; if not, it is stale.
    pub fn contains(&self, handle: Token) -> (found: bool)
        requires
            self.wf(),
        ensures
            found == self@.matches(handle),
    {
        let index = handle.as_usize();
        match self.generation(index) {
            Some(generation) => handle.counter_eq(generation) && self.machines[index].is_some(),
            None => false,
        }
    }

    /// The machine that `handle` addresses, or `None` where the handle is
    /// stale.
    pub fn get_for_dispatch(&self, handle: Token) -> (found: Option<&M>)
        requires
            self.wf(),
        ensures
            match found {
                Some(machine) => self@.matches(handle) && *machine == self@.slot(
                    handle.index(),
                ).machine,
                None => !self@.matches(handle),
            },
    {
        if self.contains(handle) {
            self.machines[handle.as_usize()].as_ref()
        } else {
            None
        }
    }

    /// The state of a registry between `reserve` and `settle`: slot `index`
    /// is reserved, and the registry is sound apart from that.
    pub closed spec fn reserving(&self, index: usize) -> bool {
        &&& self@.reserving(index)
        &&& table_limit(self.table) == self.machines@.len()
    }

    /// What `reserving` says, in terms of the model.
    pub proof fn lemma_reserving(&self, index: usize)
        requires
            self.reserving(index),
        ensures
            self@.reserving(index),
    {
    }

    /// Takes a free slot for a machine that is to follow and stamps it with
    /// the next generation, which is given out only when the machine moves
    /// in. Returns the token that the machine will have. The slot is reserved
    /// until `settle`.
    ///
    /// Returns `None`, and changes nothing, where every slot is in use or the
    /// generations are used up.
    pub fn reserve(&mut self) -> (reserved: Option<Token>)
        requires
            old(self).wf(),
        ensures
            reserved is None <==> old(self)@.full() || old(self)@.counter_next == u64::MAX,
            match reserved {
                Some(token) => {
                    &&& final(self).reserving(token.index())
                    &&& !old(self)@.in_use(token.index())
                    &&& token.index() < old(self)@.capacity()
                    &&& token.generation() == Some(old(self)@.counter_next)
                    &&& final(self)@ == old(self)@.reserve(token.index())
                    &&& final(self)@.held(token.index())
                },
                None => *final(self) == *old(self),
            },
    {
        let generation = self.counter_next;
        if generation == u64::MAX {
            return None;
        }
        match table_insert(&mut self.table, generation) {
            Some(index) => {
                proof {
                    assert(!old(self)@.in_use(index));
                    assert(index < old(self)@.machines.len());
                    assert(!old(self)@.full());
                    old(self)@.lemma_reserve(index);
                    assert(self@.generations =~= old(self)@.reserve(index).generations);
                    assert(self@ == old(self)@.reserve(index));
                }
                Some(Token::new(index, generation))
            },
            None => {
                assert(old(self)@.full()) by {
                    assert forall|i: usize| i < old(self)@.machines.len() implies old(
                        self,
                    )@.in_use(i) by {
                        assert(table_entries(old(self).table).dom().contains(i));
                    }
                }
                None
            },
        }
    }

    /// Ends a reservation: with `Some(machine)` the machine moves into the
    /// reserved slot, its generation is given out and the counter moves on;
    /// with `None` the slot is given up, so that the registry is as it was
    /// before `reserve`.
    pub fn settle(&mut self, index: usize, machine: Option<M>)
        requires
            old(self).reserving(index),
        ensures
            final(self).wf(),
            match machine {
                Some(m) => final(self)@ == old(self)@.commit(index, m) && final(self)@.occupied(
                    index,
                ),
                None => final(self)@ == old(self)@.release(index) && !final(self)@.in_use(index),
            },
    {
        match machine {
            Some(m) => {
                proof {
                    old(self)@.lemma_commit(index, m);
                }
                self.machines.set(index, Some(m));
                self.counter_next = self.counter_next + 1;
                assert(self@ == old(self)@.commit(index, m));
            },
            None => {
                let _ = table_remove(&mut self.table, index);
                assert(self@ == old(self)@.release(index));
            },
        }
    }

    /// Inserts a machine: takes a free slot, reusing a freed index where there
    /// is one, stamps it with the next generation and returns its token.
    ///
    /// Fails, handing the machine back, only where every slot is in use or the
    /// generations are used up.
    pub fn insert(&mut self, machine: M) -> (inserted: Result<Token, M>)
        requires
            old(self).wf(),
        ensures
            final(self).wf(),
            inserted is Err <==> old(self)@.full() || old(self)@.counter_next == u64::MAX,
            match inserted {
                Ok(token) => {
                    &&& !old(self)@.in_use(token.index())
                    &&& token.index() < old(self)@.capacity()
                    &&& token.generation() == Some(old(self)@.counter_next)
                    &&& final(self)@ == old(self)@.insert(token.index(), machine)
                    &&& final(self)@.matches(token)
                },
                Err(back) => back == machine && *final(self) == *old(self),
            },
    {
        match self.reserve() {
            Some(token) => {
                self.settle(token.as_usize(), Some(machine));
                Ok(token)
            },
            None => Err(machine),
        }
    }

    /// Frees slot `index` whatever its generation and returns its machine.
    /// Where the slot holds no machine nothing changes.
    pub fn remove(&mut self, index: usize) -> (removed: Option<M>)
        requires
            old(self).wf(),
        ensures
            final(self).wf(),
            match removed {
                Some(machine) => {
                    &&& old(self)@.occupied(index)
                    &&& machine == old(self)@.slot(index).machine
                    &&& final(self)@ == old(self)@.remove(index)
                    &&& !final(self)@.in_use(index)
                },
                None => !old(self)@.occupied(index) && *final(self) == *old(self),
            },
    {
        if index >= self.machines.len() {
            return None;
        }
        if self.machines[index].is_none() {
            return None;
        }
        proof {
            assert(old(self)@.in_use(index));
            old(self)@.lemma_remove_wf(index);
        }
        let machine = self.machines[index].take();
        let _ = table_remove(&mut self.table, index);
        assert(self@.machines =~= old(self)@.machines.update(index as int, None));
        assert(self@ == old(self)@.remove(index));
        machine
    }

    /// Takes the machine that `handle` addresses out of its slot, together
    /// with the slot's generation. The slot is held until `restore`, so no
    /// insertion takes its index meanwhile.
    ///
    /// Where the handle is stale, returns `None` and changes nothing.
    pub fn take(&mut self, handle: Token) -> (taken: Option<EventMachineSlot<M>>)
        requires
            old(self).wf(),
        ensures
            final(self).wf(),
            match taken {
                Some(slot) => {
                    &&& old(self)@.matches(handle)
                    &&& slot == old(self)@.slot(handle.index())
                    &&& final(self)@ == old(self)@.vacate(handle.index())
                    &&& final(self)@.held(handle.index())
                },
                None => !old(self)@.matches(handle) && *final(self) == *old(self),
            },
    {
        let index = handle.as_usize();
        if !self.contains(handle) {
            return None;
        }
        let counter = self.generation(index);
        proof {
            old(self)@.lemma_vacate_wf(index);
        }
        let machine = self.machines[index].take();
        assert(self@.machines =~= old(self)@.machines.update(index as int, None));
        assert(self@ == old(self)@.vacate(index));
        match (machine, counter) {
            (Some(machine), Some(counter)) => Some(EventMachineSlot { machine, counter }),
            _ => None,
        }
    }

    /// Writes back what a callback returned for the machine taken from the
    /// held slot `index`: `Some` occupies the slot again, under the generation
    /// it had; `None` frees it.
    pub fn restore(&mut self, index: usize, machine: Option<M>)
        requires
            old(self).wf(),
            old(self)@.held(index),
        ensures
            final(self).wf(),
            final(self)@ == old(self)@.written_back(index, machine),
            final(self)@.occupied(index) <==> machine is Some,
            final(self)@.in_use(index) <==> machine is Some,
    {
        match machine {
            Some(m) => {
                proof {
                    old(self)@.lemma_fill_wf(index, m);
                }
                self.machines.set(index, Some(m));
                assert(self@ == old(self)@.fill(index, m));
            },
            None => {
                proof {
                    old(self)@.lemma_remove_wf(index);
                }
                let _ = table_remove(&mut self.table, index);
                assert(self@.machines =~= old(self)@.machines.update(index as int, None));
                assert(self@ == old(self)@.remove(index));
            },
        }
    }

    /// Gives the machine that `handle` addresses to `f`, together with the
    /// registry, in which the slot of the machine is held meanwhile, and
    /// writes back what `f` returns: `Some` occupies the slot again, `None`
    /// frees it. Returns whether the machine was kept.
    ///
    /// Where the handle is stale nothing is called, nothing changes, and
    /// `None` is returned: a stale handle is no error.
    pub fn replace_with<F>(&mut self, handle: Token, f: F) -> (kept: Option<bool>)
        where F: FnOnce(M, &mut Registry<M>) -> Option<M>
        requires
            old(self).wf(),
            forall|machine: M, registry: &mut Registry<M>|
                registry.wf() && registry@.held(handle.index()) ==> f.requires(
                    (machine, registry),
                ),
            forall|machine: M, registry: &mut Registry<M>, next: Option<M>|
                f.ensures((machine, registry), next) ==> final(registry).wf()
                    && final(registry)@.held(handle.index()),
        ensures
            final(self).wf(),
            match kept {
                Some(true) => old(self)@.matches(handle) && final(self)@.occupied(handle.index()),
                Some(false) => old(self)@.matches(handle) && !final(self)@.in_use(handle.index()),
                None => !old(self)@.matches(handle) && *final(self) == *old(self),
            },
            kept is Some ==> exists|registry: &mut Registry<M>, next: Option<M>|
                {
                    &&& #[trigger] f.ensures(
                        (old(self)@.slot(handle.index()).machine, registry),
                        next,
                    )
                    &&& registry@ == old(self)@.vacate(handle.index())
                    &&& final(self)@ == final(registry)@.written_back(handle.index(), next)
                    &&& kept == Some(next is Some)
                },
    {
        match self.take(handle) {
            Some(slot) => {
                let next = f(slot.machine, self);
                let kept = next.is_some();
                self.restore(handle.as_usize(), next);
                Some(kept)
            },
            None => None,
        }
    }
}

} // verus!
