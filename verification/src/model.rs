//! The mathematical model of the slot registry, and what holds of it
//! however it changes.

use crate::slots::EventMachineSlot;
use crate::token::Token;
use vstd::prelude::*;

verus! {

/// The mathematical model of a registry.
pub struct Slots<M> {
    /// The generation of each slot in use, by index.
    pub generations: Map<usize, u64>,
    /// The machine of each slot, by index; `None` where the slot is free, or
    /// in use while its machine is away.
    pub machines: Seq<Option<M>>,
    /// The generation that the next insertion gets.
    pub counter_next: u64,
}

impl<M> Slots<M> {
    /// The number of slots.
    pub open spec fn capacity(self) -> nat {
        self.machines.len()
    }

    /// Slot `i` is taken: no insertion gets this index.
    pub open spec fn in_use(self, i: usize) -> bool {
        self.generations.dom().contains(i)
    }

    /// Slot `i` holds a machine.
    pub open spec fn occupied(self, i: usize) -> bool {
        self.in_use(i) && i < self.machines.len() && self.machines[i as int] is Some
    }

    /// Slot `i` is kept for a machine that is away: it is in use and empty.
    pub open spec fn held(self, i: usize) -> bool {
        self.in_use(i) && !self.occupied(i)
    }

    /// Every slot is in use.
    pub open spec fn full(self) -> bool {
        forall|i: usize| i < self.machines.len() ==> self.in_use(i)
    }

    /// No slot is in use.
    pub open spec fn is_empty(self) -> bool {
        forall|i: usize| !self.in_use(i)
    }

    /// What slot `i` holds, where it is occupied.
    pub open spec fn slot(self, i: usize) -> EventMachineSlot<M>
        recommends
            self.occupied(i),
    {
        EventMachineSlot { machine: self.machines[i as int]->0, counter: self.generations[i] }
    }

    /// The token addresses a machine: its slot is occupied and stamped with a
    /// generation that the token accepts. Any other token is stale.
    pub open spec fn matches(self, token: Token) -> bool {
        self.occupied(token.index()) && token.accepts(self.generations[token.index()])
    }

    /// The invariant of a registry: slots in use lie within the table, every
    /// machine stands in a slot in use, and the generations in use are
    /// distinct and below the counter.
    pub open spec fn wf(self) -> bool {
        &&& self.machines.len() < usize::MAX
        &&& self.generations.dom().finite()
        &&& forall|i: usize| #[trigger]
            self.in_use(i) ==> i < self.machines.len() && self.generations[i] < self.counter_next
        &&& forall|i: usize|
            i < self.machines.len() && self.machines[i as int] is Some ==> #[trigger] self.in_use(i)
        &&& forall|i: usize, j: usize|
            #![trigger self.in_use(i), self.in_use(j)]
            self.in_use(i) && self.in_use(j) && i != j ==> self.generations[i]
                != self.generations[j]
    }

    /// Slot `i` reserved: taken and stamped with the generation that the
    /// next insertion gets, which is not given out yet. Its place stays
    /// empty.
    pub open spec fn reserve(self, i: usize) -> Slots<M> {
        Slots {
            generations: self.generations.insert(i, self.counter_next),
            machines: self.machines,
            counter_next: self.counter_next,
        }
    }

    /// `machine` put into the reserved slot `i`: its generation is given out,
    /// and the counter moves on.
    pub open spec fn commit(self, i: usize, machine: M) -> Slots<M> {
        Slots {
            generations: self.generations,
            machines: self.machines.update(i as int, Some(machine)),
            counter_next: (self.counter_next + 1) as u64,
        }
    }

    /// Slot `i` is reserved, and nothing else is amiss: it bears the
    /// generation that is not given out yet, its place is empty, and without
    /// it the registry is sound.
    pub open spec fn reserving(self, i: usize) -> bool {
        &&& self.in_use(i)
        &&& self.generations[i] == self.counter_next
        &&& self.counter_next < u64::MAX
        &&& i < self.machines.len()
        &&& self.machines[i as int] is None
        &&& self.release(i).wf()
    }

    /// `machine` put into slot `i`, whose generation stays.
    pub open spec fn fill(self, i: usize, machine: M) -> Slots<M> {
        Slots {
            generations: self.generations,
            machines: self.machines.update(i as int, Some(machine)),
            counter_next: self.counter_next,
        }
    }

    /// The machine of slot `i` taken away; the slot stays in use.
    pub open spec fn vacate(self, i: usize) -> Slots<M> {
        Slots {
            generations: self.generations,
            machines: self.machines.update(i as int, None),
            counter_next: self.counter_next,
        }
    }

    /// `machine` inserted into slot `i` under the next generation.
    pub open spec fn insert(self, i: usize, machine: M) -> Slots<M> {
        self.reserve(i).commit(i, machine)
    }

    /// The reserved slot `i` given up: the slot is free again, and its
    /// generation was never given out.
    pub open spec fn release(self, i: usize) -> Slots<M> {
        Slots {
            generations: self.generations.remove(i),
            machines: self.machines,
            counter_next: self.counter_next,
        }
    }

    /// Slot `i` freed.
    pub open spec fn remove(self, i: usize) -> Slots<M> {
        Slots {
            generations: self.generations.remove(i),
            machines: self.machines.update(i as int, None),
            counter_next: self.counter_next,
        }
    }

    /// What a callback returned for the machine of the held slot `i` written
    /// back: the machine is in its slot again, or the slot is free.
    pub open spec fn written_back(self, i: usize, next: Option<M>) -> Slots<M> {
        match next {
            Some(machine) => self.fill(i, machine),
            None => self.remove(i),
        }
    }

    /// A free slot can be reserved, and is held then.
    pub proof fn lemma_reserve(self, i: usize)
        requires
            self.wf(),
            !self.in_use(i),
            i < self.capacity(),
            self.counter_next < u64::MAX,
        ensures
            self.reserve(i).reserving(i),
            self.reserve(i).held(i),
            self.reserve(i).release(i) == self,
    {
        assert(self.reserve(i).generations.remove(i) =~= self.generations);
        if self.machines[i as int] is Some {
            assert(self.in_use(i));
        }
    }

    /// A machine put into the slot reserved for it is a machine inserted.
    pub proof fn lemma_commit(self, i: usize, machine: M)
        requires
            self.reserving(i),
        ensures
            self.commit(i, machine) == self.release(i).insert(i, machine),
            self.commit(i, machine).wf(),
            self.commit(i, machine).occupied(i),
    {
        let before = self.release(i);
        assert(before.generations.insert(i, before.counter_next) =~= self.generations);
        before.lemma_insert_grows(i, machine);
    }

    /// Putting a machine into a slot in use keeps the invariant.
    pub proof fn lemma_fill_wf(self, i: usize, machine: M)
        requires
            self.wf(),
            self.in_use(i),
        ensures
            self.fill(i, machine).wf(),
            self.fill(i, machine).occupied(i),
    {
        let after = self.fill(i, machine);
        assert(self.in_use(i));
        assert forall|j: usize| #[trigger] after.in_use(j) implies j < after.machines.len()
            && after.generations[j] < after.counter_next by {
            assert(self.in_use(j));
        }
        assert forall|j: usize|
            j < after.machines.len() && after.machines[j as int] is Some implies #[trigger]
            after.in_use(j) by {
            if j != i {
                assert(self.in_use(j));
            }
        }
        assert forall|j: usize, k: usize|
            #![trigger after.in_use(j), after.in_use(k)]
            after.in_use(j) && after.in_use(k) && j != k implies after.generations[j]
            != after.generations[k] by {
            assert(self.in_use(j) && self.in_use(k));
        }
    }

    /// Taking a machine out of its slot keeps the invariant.
    pub proof fn lemma_vacate_wf(self, i: usize)
        requires
            self.wf(),
            self.occupied(i),
        ensures
            self.vacate(i).wf(),
            self.vacate(i).held(i),
    {
        let after = self.vacate(i);
        assert forall|j: usize| #[trigger] after.in_use(j) implies j < after.machines.len()
            && after.generations[j] < after.counter_next by {
            assert(self.in_use(j));
        }
        assert forall|j: usize|
            j < after.machines.len() && after.machines[j as int] is Some implies #[trigger]
            after.in_use(j) by {
            assert(self.in_use(j));
        }
        assert forall|j: usize, k: usize|
            #![trigger after.in_use(j), after.in_use(k)]
            after.in_use(j) && after.in_use(k) && j != k implies after.generations[j]
            != after.generations[k] by {
            assert(self.in_use(j) && self.in_use(k));
        }
    }

    /// Freeing a slot in use keeps the invariant.
    pub proof fn lemma_remove_wf(self, i: usize)
        requires
            self.wf(),
            self.in_use(i),
        ensures
            self.remove(i).wf(),
            !self.remove(i).in_use(i),
    {
        let after = self.remove(i);
        assert(self.in_use(i));
        assert forall|j: usize| #[trigger] after.in_use(j) implies j < after.machines.len()
            && after.generations[j] < after.counter_next by {
            assert(self.in_use(j));
        }
        assert forall|j: usize|
            j < after.machines.len() && after.machines[j as int] is Some implies #[trigger]
            after.in_use(j) by {
            assert(self.in_use(j));
        }
        assert forall|j: usize, k: usize|
            #![trigger after.in_use(j), after.in_use(k)]
            after.in_use(j) && after.in_use(k) && j != k implies after.generations[j]
            != after.generations[k] by {
            assert(self.in_use(j) && self.in_use(k));
        }
    }

    /// What has become of `before` while machines were only added: its slots
    /// in use are as they were, and each further slot in use is occupied
    /// under a generation that `before` had not reached.
    pub open spec fn grown_from(self, before: Slots<M>) -> bool {
        &&& self.machines.len() == before.machines.len()
        &&& self.counter_next >= before.counter_next
        &&& forall|i: usize|
            #![trigger self.in_use(i)]
            #![trigger before.in_use(i)]
            before.in_use(i) ==> self.in_use(i) && self.generations[i] == before.generations[i]
                && self.machines[i as int] == before.machines[i as int]
        &&& forall|i: usize|
            #![trigger self.in_use(i)]
            #![trigger before.in_use(i)]
            self.in_use(i) && !before.in_use(i) ==> self.occupied(i) && self.generations[i]
                >= before.counter_next
    }

    /// Nothing added is growth too.
    pub proof fn lemma_grown_refl(self)
        ensures
            self.grown_from(self),
    {
    }

    /// Growth upon growth is growth.
    pub proof fn lemma_grown_trans(self, mid: Slots<M>, before: Slots<M>)
        requires
            self.grown_from(mid),
            mid.grown_from(before),
        ensures
            self.grown_from(before),
    {
        assert forall|i: usize|
            #![trigger self.in_use(i)]
            #![trigger before.in_use(i)]
            before.in_use(i) implies self.in_use(i) && self.generations[i] == before.generations[i]
            && self.machines[i as int] == before.machines[i as int] by {
            assert(mid.in_use(i));
        }
        assert forall|i: usize|
            #![trigger self.in_use(i)]
            #![trigger before.in_use(i)]
            self.in_use(i) && !before.in_use(i) implies self.occupied(i) && self.generations[i]
            >= before.counter_next by {
            if mid.in_use(i) {
                assert(mid.occupied(i));
            }
        }
    }

    /// An insertion is growth, and keeps the invariant.
    pub proof fn lemma_insert_grows(self, i: usize, machine: M)
        requires
            self.wf(),
            !self.in_use(i),
            i < self.capacity(),
            self.counter_next < u64::MAX,
        ensures
            self.insert(i, machine).wf(),
            self.insert(i, machine).grown_from(self),
            self.insert(i, machine).occupied(i),
            self.insert(i, machine).generations[i] == self.counter_next,
    {
        let after = self.insert(i, machine);
        assert forall|j: usize| #[trigger] after.in_use(j) implies j < after.machines.len()
            && after.generations[j] < after.counter_next by {
            if j != i {
                assert(self.in_use(j));
            }
        }
        assert forall|j: usize|
            j < after.machines.len() && after.machines[j as int] is Some implies #[trigger]
            after.in_use(j) by {
            if j != i {
                assert(self.in_use(j));
            }
        }
        assert forall|j: usize, k: usize|
            #![trigger after.in_use(j), after.in_use(k)]
            after.in_use(j) && after.in_use(k) && j != k implies after.generations[j]
            != after.generations[k] by {
            if j != i {
                assert(self.in_use(j));
            }
            if k != i {
                assert(self.in_use(k));
            }
        }
        assert forall|j: usize|
            #![trigger after.in_use(j)]
            #![trigger self.in_use(j)]
            self.in_use(j) implies after.in_use(j) && after.generations[j] == self.generations[j]
            && after.machines[j as int] == self.machines[j as int] by {
            assert(j != i);
        }
    }
}

/// A change to a registry from outside: one insertion or one removal.
pub enum Change<M> {
    /// A machine is inserted and lands in the given slot.
    Insert(usize, M),
    /// The given slot is freed.
    Remove(usize),
}

impl<M> Slots<M> {
    /// What has become of `before` by insertions and removals: each slot in
    /// use either was in use under the same generation, or bears a generation
    /// that `before` had not given out yet.
    pub open spec fn evolved_from(self, before: Slots<M>) -> bool {
        &&& self.machines.len() == before.machines.len()
        &&& self.counter_next >= before.counter_next
        &&& forall|i: usize| #[trigger]
            self.in_use(i) ==> (before.in_use(i) && self.generations[i] == before.generations[i])
                || self.generations[i] >= before.counter_next
    }

    /// The token was given out and its slot has been freed since: it bears a
    /// generation below the counter that no slot at its index holds.
    pub open spec fn retired(self, token: Token) -> bool {
        match token.generation() {
            Some(g) => g < self.counter_next && !(self.in_use(token.index())
                && self.generations[token.index()] == g),
            None => false,
        }
    }

    /// Whether the change can be made: an insertion lands in a free slot and
    /// finds a generation left; a removal frees a slot in use.
    pub open spec fn admits(self, change: Change<M>) -> bool {
        match change {
            Change::Insert(i, _) => !self.in_use(i) && i < self.capacity() && self.counter_next
                < u64::MAX,
            Change::Remove(i) => self.in_use(i),
        }
    }

    /// The registry after the change.
    pub open spec fn apply(self, change: Change<M>) -> Slots<M> {
        match change {
            Change::Insert(i, machine) => self.insert(i, machine),
            Change::Remove(i) => self.remove(i),
        }
    }

    /// Whether the changes can be made one after the other.
    pub open spec fn admits_all(self, changes: Seq<Change<M>>) -> bool
        decreases changes.len(),
    {
        if changes.len() == 0 {
            true
        } else {
            self.admits(changes[0]) && self.apply(changes[0]).admits_all(changes.skip(1))
        }
    }

    /// The registry after the changes, made one after the other.
    pub open spec fn apply_all(self, changes: Seq<Change<M>>) -> Slots<M>
        decreases changes.len(),
    {
        if changes.len() == 0 {
            self
        } else {
            self.apply(changes[0]).apply_all(changes.skip(1))
        }
    }

    /// Nothing changed is evolution too.
    pub proof fn lemma_evolved_refl(self)
        ensures
            self.evolved_from(self),
    {
    }

    /// Evolution upon evolution is evolution.
    pub proof fn lemma_evolved_trans(self, mid: Slots<M>, before: Slots<M>)
        requires
            self.evolved_from(mid),
            mid.evolved_from(before),
        ensures
            self.evolved_from(before),
    {
        assert forall|i: usize| #[trigger] self.in_use(i) implies (before.in_use(i)
            && self.generations[i] == before.generations[i]) || self.generations[i]
            >= before.counter_next by {
            assert(mid.in_use(i) || self.generations[i] >= mid.counter_next);
        }
    }

    /// Growth is evolution.
    pub proof fn lemma_grown_evolves(self, before: Slots<M>)
        requires
            self.grown_from(before),
        ensures
            self.evolved_from(before),
    {
        assert forall|i: usize| #[trigger] self.in_use(i) implies (before.in_use(i)
            && self.generations[i] == before.generations[i]) || self.generations[i]
            >= before.counter_next by {
            assert(before.in_use(i) || self.occupied(i));
        }
    }

    /// A change keeps the invariant and is evolution.
    pub proof fn lemma_apply_evolves(self, change: Change<M>)
        requires
            self.wf(),
            self.admits(change),
        ensures
            self.apply(change).wf(),
            self.apply(change).evolved_from(self),
    {
        match change {
            Change::Insert(i, machine) => {
                self.lemma_insert_grows(i, machine);
                self.insert(i, machine).lemma_grown_evolves(self);
            },
            Change::Remove(i) => {
                self.lemma_remove_wf(i);
                let after = self.remove(i);
                assert forall|j: usize| #[trigger] after.in_use(j) implies (self.in_use(j)
                    && after.generations[j] == self.generations[j]) || after.generations[j]
                    >= self.counter_next by {
                    assert(self.in_use(j));
                }
            },
        }
    }

    /// Changes made one after the other keep the invariant and are evolution.
    pub proof fn lemma_apply_all_evolves(self, changes: Seq<Change<M>>)
        requires
            self.wf(),
            self.admits_all(changes),
        ensures
            self.apply_all(changes).wf(),
            self.apply_all(changes).evolved_from(self),
        decreases changes.len(),
    {
        if changes.len() > 0 {
            let mid = self.apply(changes[0]);
            self.lemma_apply_evolves(changes[0]);
            mid.lemma_apply_all_evolves(changes.skip(1));
            self.apply_all(changes).lemma_evolved_trans(mid, self);
        }
    }

    /// A retired token stays retired, and matches nothing, however the
    /// registry evolves.
    pub proof fn lemma_retired_stays(self, before: Slots<M>, token: Token)
        requires
            self.evolved_from(before),
            before.retired(token),
        ensures
            self.retired(token),
            !self.matches(token),
    {
    }

    /// Generations are never given out twice: a token whose slot was freed
    /// matches no machine after any sequence of insertions and removals, also
    /// where an insertion has taken its index again.
    pub proof fn lemma_generation_unique(self, changes: Seq<Change<M>>, token: Token)
        requires
            self.wf(),
            self.admits_all(changes),
            self.retired(token),
        ensures
            !self.apply_all(changes).matches(token),
    {
        self.lemma_apply_all_evolves(changes);
        self.apply_all(changes).lemma_retired_stays(self, token);
    }

    /// The token that an insertion returns addresses the machine inserted.
    pub proof fn lemma_insert_matches(self, i: usize, machine: M)
        requires
            self.wf(),
            !self.in_use(i),
            i < self.capacity(),
            self.counter_next < u64::MAX,
        ensures
            self.insert(i, machine).matches(Token::stamped(i, self.counter_next)),
            self.insert(i, machine).slot(i).machine == machine,
    {
        Token::lemma_parts(i, self.counter_next);
        self.lemma_insert_grows(i, machine);
    }

    /// A token that addressed a machine is retired once its slot is free.
    pub proof fn lemma_freed_retires(self, before: Slots<M>, token: Token)
        requires
            before.wf(),
            before.matches(token),
            token.generation() is Some,
            self.counter_next >= before.counter_next,
            !self.in_use(token.index()),
        ensures
            self.retired(token),
    {
        assert(before.in_use(token.index()));
    }
}

} // verus!
