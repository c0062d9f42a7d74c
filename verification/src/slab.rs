//! Generational slab.
//!
//! Each slot keeps a generation counter that changes whenever the slot is
//! freed; `TaskToken { idx, gen }` is valid iff `slots[idx].gen == gen` and
//! the slot is occupied.
use vstd::prelude::*;
use crate::uci::TaskToken;

verus! {

#[derive(Debug)]
struct Slot<T> {
    gen: u32,
    value: Option<T>,
}

/// A slab of values addressed by generational tokens.
#[derive(Debug)]
pub struct Slab<T> {
    slots: Vec<Slot<T>>,
    free: Vec<u32>,
}

/// The generation a freed slot moves to: one more, wrapping, never zero.
pub open spec fn next_gen(g: u32) -> u32 {
    if g == u32::MAX {
        1
    } else {
        (g + 1) as u32
    }
}

/// A slot's generation always changes when it is freed, and never becomes 0.
pub proof fn lemma_next_gen_changes(g: u32)
    ensures
        next_gen(g) != g,
        next_gen(g) >= 1,
{
}

impl<T> Slab<T> {
    /// `(generation, value)` of each slot.
    pub closed spec fn slots(&self) -> Seq<(u32, Option<T>)> {
        self.slots@.map_values(|s: Slot<T>| (s.gen, s.value))
    }

    /// Free slot indices; the last one is handed out next.
    pub closed spec fn free_list(&self) -> Seq<u32> {
        self.free@
    }

    /// Generations are non-zero and free indices address slots.
    pub closed spec fn wf(&self) -> bool {
        &&& forall|i: int| 0 <= i < self.slots@.len() ==> #[trigger] self.slots@[i].gen >= 1
        &&& forall|j: int| 0 <= j < self.free@.len() ==> (#[trigger] self.free@[j] as int) < self.slots@.len()
    }

    /// The token names an occupied slot of its generation.
    pub open spec fn live(&self, t: TaskToken) -> bool {
        &&& (t.idx as int) < self.slots().len()
        &&& self.slots()[t.idx as int].0 == t.gen
        &&& self.slots()[t.idx as int].1 is Some
    }

    /// What `insert` stored is what a lookup of its token finds while the
    /// slot is left alone: `s1` is `s0` after `insert(v)` handed out `t` (as
    /// `insert` states it), `s2` a later slab whose slot `t.idx` is unchanged;
    /// then `t` is live in `s2` and holds `v`, so `get_mut(t)` answers it.
    pub proof fn lemma_insert_then_lookup(s0: Self, s1: Self, s2: Self, v: T, t: TaskToken)
        requires
            s0.wf(),
            s0.free_list().len() > 0,
            t == (TaskToken { idx: s0.free_list().last(), gen: s0.slots()[s0.free_list().last() as int].0 }),
            s1.slots() == s0.slots().update(t.idx as int, (t.gen, Some(v))),
            s2.slots().len() == s1.slots().len(),
            s2.slots()[t.idx as int] == s1.slots()[t.idx as int],
        ensures
            s2.live(t),
            s2.slots()[t.idx as int].1 == Some(v),
    {
        assert(s0.free@[s0.free@.len() - 1] == s0.free_list().last());
    }

    /// An update of another slot (what `free`, `take`, `put`, `get_mut` and
    /// `insert` do to the slot they address) keeps a live token live, with
    /// its value.
    pub proof fn lemma_other_slot_update(s1: Self, s2: Self, t: TaskToken, j: int, x: (u32, Option<T>))
        requires
            s1.live(t),
            0 <= j < s1.slots().len(),
            j != t.idx as int,
            s2.slots() == s1.slots().update(j, x),
        ensures
            s2.live(t),
            s2.slots()[t.idx as int] == s1.slots()[t.idx as int],
    {
    }

    /// A slab of `capacity` empty slots of generation 1; the free list holds
    /// `capacity as u32 - 1` down to `0`, so indices are handed out ascending.
    pub fn new(capacity: usize) -> (s: Self)
        ensures
            s.wf(),
            s.slots().len() == capacity,
            forall|i: int| 0 <= i < capacity ==> #[trigger] s.slots()[i] == (1u32, None::<T>),
            s.free_list().len() == (#[verifier::truncate] (capacity as u32)) as int,
            forall|j: int| 0 <= j < s.free_list().len() ==> #[trigger] s.free_list()[j] as int
                == (#[verifier::truncate] (capacity as u32)) as int - 1 - j,
    {
        let mut slots: Vec<Slot<T>> = Vec::with_capacity(capacity);
        let mut i: usize = 0;
        while i < capacity
            invariant
                i <= capacity,
                slots@.len() == i,
                forall|k: int| 0 <= k < i ==> (#[trigger] slots@[k]).gen == 1 && slots@[k].value is None,
            decreases capacity - i,
        {
            slots.push(Slot { gen: 1, value: None });
            i = i + 1;
        }
        let n: u32 = #[verifier::truncate] (capacity as u32);
        proof {
            assert(capacity as u32 as int <= capacity as int) by (bit_vector);
        }
        let mut free: Vec<u32> = Vec::new();
        let mut k: u32 = n;
        while k > 0
            invariant
                k <= n,
                n as int <= capacity,
                free@.len() == n - k,
                forall|j: int| 0 <= j < free@.len() ==> #[trigger] free@[j] as int == n as int - 1 - j,
            decreases k,
        {
            k = k - 1;
            free.push(k);
        }
        let s = Slab { slots, free };
        proof {
            assert forall|i: int| 0 <= i < capacity implies #[trigger] s.slots()[i] == (1u32, None::<T>) by {
                assert(s.slots@[i].gen == 1 && s.slots@[i].value is None);
            }
        }
        s
    }

    /// Store `value` in the next free slot and return its token, or `None`
    /// when no slot is free.
    pub fn insert(&mut self, value: T) -> (r: Option<TaskToken>)
        requires
            old(self).wf(),
        ensures
            final(self).wf(),
            old(self).free_list().len() == 0 ==> r is None && final(self).slots() == old(self).slots()
                && final(self).free_list() == old(self).free_list(),
            old(self).free_list().len() > 0 ==> {
                let idx = old(self).free_list().last();
                let g = old(self).slots()[idx as int].0;
                &&& (idx as int) < old(self).slots().len()
                &&& r == Some(TaskToken { idx, gen: g })
                &&& final(self).free_list() == old(self).free_list().drop_last()
                &&& final(self).slots() == old(self).slots().update(idx as int, (g, Some(value)))
            },
            r matches Some(t) ==> final(self).live(t) && final(self).slots()[t.idx as int].1 == Some(value),
    {
        let idx = match self.free.pop() {
            Some(i) => i,
            None => return None,
        };
        let ghost old_slots = self.slots@;
        proof { assert(old(self).free@[old(self).free@.len() - 1] == idx); }
        let i = idx as usize;
        let g = self.slots[i].gen;
        self.slots.set(i, Slot { gen: g, value: Some(value) });
        proof {
            assert(self.slots() =~= old(self).slots().update(idx as int, (g, Some(value))));
            assert forall|j: int| 0 <= j < self.free@.len() implies (#[trigger] self.free@[j] as int) < self.slots@.len() by {
                assert(self.free@[j] == old(self).free@[j]);
            }
            assert forall|j: int| 0 <= j < self.slots@.len() implies #[trigger] self.slots@[j].gen >= 1 by {
                assert(old_slots[j].gen >= 1);
            }
        }
        Some(TaskToken { idx, gen: g })
    }

    /// Mutable access to the value of a live token.
    pub fn get_mut(&mut self, token: TaskToken) -> (r: Option<&mut T>)
        requires
            old(self).wf(),
        ensures
            match r {
                None => !old(self).live(token) && *final(self) == *old(self),
                Some(v) => {
                    &&& old(self).live(token)
                    &&& *v == old(self).slots()[token.idx as int].1.unwrap()
                    &&& final(self).slots() == old(self).slots().update(token.idx as int, (token.gen, Some(*final(v))))
                    &&& final(self).free_list() == old(self).free_list()
                    &&& final(self).wf()
                },
            },
    {
        let i = token.idx as usize;
        if i >= self.slots.len() {
            return None;
        }
        if self.slots[i].gen != token.gen {
            return None;
        }
        if self.slots[i].value.is_none() {
            return None;
        }
        let slot = &mut self.slots[i];
        slot.value.as_mut()
    }

    /// The first occupied slot (by index) whose value `f` accepts.
    pub fn find_token_by<F>(&self, f: F) -> (r: Option<TaskToken>)
        where
            F: Fn(&T) -> bool,
        requires
            self.slots().len() <= u32::MAX + 1,
            forall|v: &T| #[trigger] f.requires((v,)),
        ensures
            match r {
                Some(t) => {
                    &&& self.live(t)
                    &&& f.ensures((&self.slots()[t.idx as int].1.unwrap(),), true)
                    &&& forall|j: int| 0 <= j < t.idx && #[trigger] self.slots()[j].1 is Some
                        ==> f.ensures((&self.slots()[j].1.unwrap(),), false)
                },
                None => forall|j: int| 0 <= j < self.slots().len() && #[trigger] self.slots()[j].1 is Some
                    ==> f.ensures((&self.slots()[j].1.unwrap(),), false),
            },
    {
        let mut i: usize = 0;
        while i < self.slots.len()
            invariant
                i <= self.slots@.len(),
                self.slots().len() <= u32::MAX + 1,
                forall|v: &T| #[trigger] f.requires((v,)),
                forall|j: int| 0 <= j < i && #[trigger] self.slots()[j].1 is Some
                    ==> f.ensures((&self.slots()[j].1.unwrap(),), false),
            decreases self.slots@.len() - i,
        {
            match &self.slots[i].value {
                Some(v) => {
                    if f(v) {
                        return Some(TaskToken { idx: i as u32, gen: self.slots[i].gen });
                    }
                },
                None => {},
            }
            i = i + 1;
        }
        None
    }

    /// Temporarily take the value out of a slot of the token's generation;
    /// the slot stays reserved (its index is not freed).
    pub fn take(&mut self, token: TaskToken) -> (r: Option<T>)
        requires
            old(self).wf(),
        ensures
            final(self).wf(),
            final(self).free_list() == old(self).free_list(),
            if (token.idx as int) < old(self).slots().len() && old(self).slots()[token.idx as int].0 == token.gen {
                &&& r == old(self).slots()[token.idx as int].1
                &&& final(self).slots() == old(self).slots().update(token.idx as int, (token.gen, None::<T>))
            } else {
                r is None && final(self).slots() == old(self).slots()
            },
    {
        let i = token.idx as usize;
        if i >= self.slots.len() {
            return None;
        }
        if self.slots[i].gen != token.gen {
            return None;
        }
        let ghost old_slots = self.slots@;
        let mut slot = Slot { gen: token.gen, value: None };
        self.slots.set_and_swap(i, &mut slot);
        proof {
            assert(self.slots() =~= old(self).slots().update(token.idx as int, (token.gen, None::<T>)));
            assert forall|j: int| 0 <= j < self.slots@.len() implies #[trigger] self.slots@[j].gen >= 1 by {
                assert(old_slots[j].gen >= 1);
            }
        }
        slot.value
    }

    /// Put a value back into a previously taken slot; `true` if it was stored
    /// (the generation matches and the slot is empty).
    pub fn put(&mut self, token: TaskToken, value: T) -> (r: bool)
        requires
            old(self).wf(),
        ensures
            final(self).wf(),
            final(self).free_list() == old(self).free_list(),
            r == ((token.idx as int) < old(self).slots().len() && old(self).slots()[token.idx as int].0 == token.gen
                && old(self).slots()[token.idx as int].1 is None),
            r ==> final(self).slots() == old(self).slots().update(token.idx as int, (token.gen, Some(value))),
            !r ==> final(self).slots() == old(self).slots(),
    {
        let i = token.idx as usize;
        if i >= self.slots.len() {
            return false;
        }
        if self.slots[i].gen != token.gen {
            return false;
        }
        if self.slots[i].value.is_some() {
            return false;
        }
        let ghost old_slots = self.slots@;
        self.slots.set(i, Slot { gen: token.gen, value: Some(value) });
        proof {
            assert(self.slots() =~= old(self).slots().update(token.idx as int, (token.gen, Some(value))));
            assert forall|j: int| 0 <= j < self.slots@.len() implies #[trigger] self.slots@[j].gen >= 1 by {
                assert(old_slots[j].gen >= 1);
            }
        }
        true
    }

    /// Release a slot: its generation moves on (invalidating every token of
    /// the old one), its value is dropped and its index is freed. The
    /// token's generation is not checked.
    pub fn free(&mut self, token: TaskToken)
        requires
            old(self).wf(),
        ensures
            final(self).wf(),
            (token.idx as int) < old(self).slots().len() ==> {
                &&& final(self).slots() == old(self).slots().update(token.idx as int,
                    (next_gen(old(self).slots()[token.idx as int].0), None::<T>))
                &&& final(self).free_list() == old(self).free_list().push(token.idx)
            },
            (token.idx as int) >= old(self).slots().len() ==> *final(self) == *old(self),
            !final(self).live(token),
    {
        let i = token.idx as usize;
        if i < self.slots.len() {
            let ghost old_slots = self.slots@;
            let g = self.slots[i].gen;
            let g1 = g.wrapping_add(1);
            let ng = if g1 < 1 { 1 } else { g1 };
            self.slots.set(i, Slot { gen: ng, value: None });
            self.free.push(token.idx);
            proof {
                assert(ng == next_gen(g));
                assert(self.slots() =~= old(self).slots().update(token.idx as int, (next_gen(g), None::<T>)));
                assert forall|j: int| 0 <= j < self.slots@.len() implies #[trigger] self.slots@[j].gen >= 1 by {
                    assert(old_slots[j].gen >= 1);
                }
                assert forall|j: int| 0 <= j < self.free@.len() implies (#[trigger] self.free@[j] as int) < self.slots@.len() by {
                    if j < old(self).free@.len() {
                        assert(self.free@[j] == old(self).free@[j]);
                    }
                }
            }
        }
    }
}

} // verus!
