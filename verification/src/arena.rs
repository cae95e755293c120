//! Generational slot arena: a stable-identity container mapping an opaque
//! handle (slot index + generation counter) to a value.
//!
//! Freed slots are reused, but each removal advances the slot's generation,
//! so a handle taken before the removal never resolves to the new occupant
//! of the same slot (ABA safety).  Absence is a normal `Option` outcome:
//! stale handles are expected in a live simulation, never a fatal error.

use vstd::prelude::*;

verus! {

/// Identity of an arena entry: a slot position plus the generation the slot
/// had when the entry was inserted.
#[derive(Copy, Clone, Debug, Hash, PartialEq, Eq, Structural)]
pub struct ArenaIndex {
    /// Position of the slot inside the arena.
    pub index: u32,
    /// Generation the slot had when this entry was created.
    pub generation: u32,
}

/// One storage slot: occupied while `value` is `Some`, free otherwise.
/// The generation survives the value so that reuse can advance it.
pub struct ArenaSlot<T> {
    /// Incremented every time the slot is freed.
    pub generation: u32,
    /// The stored value, if the slot is occupied.
    pub value: Option<T>,
}

/// Generational slot arena with O(1) amortized insert, remove and lookup.
pub struct Arena<T> {
    /// All slots ever allocated; slots are recycled, never dropped.
    pub slots: Vec<ArenaSlot<T>>,
    /// Stack of the positions of all currently free slots.
    pub free: Vec<u32>,
}

/// The generation a slot moves to when it is freed.  Wraps around at the
/// end of the range; a wrap could only resurrect a stale handle after
/// 2^32 removals of one slot, which no realistic session reaches.
pub open spec fn next_generation(g: u32) -> u32 {
    if g == 0xffff_ffffu32 {
        0u32
    } else {
        (g + 1) as u32
    }
}

impl<T> Arena<T> {
    /// A handle resolves exactly when its slot is occupied and the
    /// generations agree.
    pub open spec fn is_live(self, h: ArenaIndex) -> bool {
        &&& h.index < self.slots@.len()
        &&& self.slots@[h.index as int].value is Some
        &&& self.slots@[h.index as int].generation == h.generation
    }

    /// The value a live handle resolves to.
    pub open spec fn value_of(self, h: ArenaIndex) -> T {
        self.slots@[h.index as int].value->Some_0
    }

    /// There is an occupied slot at position `i`.
    pub open spec fn occupied_at(self, i: u32) -> bool {
        i < self.slots@.len() && self.slots@[i as int].value is Some
    }

    /// The live handle of the occupied slot at position `i`.
    pub open spec fn handle_at(self, i: u32) -> ArenaIndex {
        ArenaIndex { index: i, generation: self.slots@[i as int].generation }
    }

    /// Well-formedness: slot positions fit in a `u32` strictly below the
    /// sentinel, and `free` lists exactly the free slots, each once.
    pub open spec fn wf(self) -> bool {
        &&& self.slots@.len() <= 0xffff_ffff
        &&& forall|p: int|
            0 <= p < self.free@.len() ==> (#[trigger] self.free@[p]) < self.slots@.len()
                && self.slots@[self.free@[p] as int].value is None
        &&& forall|p: int, q: int|
            0 <= p < q < self.free@.len() ==> #[trigger] self.free@[p] != #[trigger] self.free@[q]
        &&& forall|s: int|
            0 <= s < self.slots@.len() && (#[trigger] self.slots@[s]).value is None
                ==> self.free@.contains(s as u32)
    }

    /// Creates an empty arena.
    pub fn new() -> (r: Arena<T>)
        ensures
            r.wf(),
            r@ == Map::<ArenaIndex, T>::empty(),
            r.slots@.len() == 0,
    {
        let r = Arena { slots: Vec::new(), free: Vec::new() };
        proof {
            assert(r@ =~= Map::<ArenaIndex, T>::empty());
        }
        r
    }

    /// Inserts a value, reusing a freed slot if one exists (at the
    /// generation the removal advanced it to), else growing by one slot.
    /// The returned handle was not live before the call.
    pub fn insert(&mut self, value: T) -> (r: ArenaIndex)
        requires
            old(self).wf(),
            old(self).free@.len() > 0 || old(self).slots@.len() < 0xffff_ffff,
        ensures
            final(self).wf(),
            forall|h: ArenaIndex| h.index == r.index ==> !old(self).is_live(h),
            final(self).is_live(r),
            final(self).value_of(r) == value,
            forall|h: ArenaIndex|
                h.index != r.index ==> (#[trigger] final(self).is_live(h) <==> old(self).is_live(h)),
            forall|h: ArenaIndex|
                h.index != r.index && final(self).is_live(h) ==> #[trigger] final(self).value_of(h) == old(self).value_of(h),
            final(self)@ == old(self)@.insert(r, value),
            old(self).slots@.len() <= final(self).slots@.len() <= old(self).slots@.len() + 1,
            r.index < final(self).slots@.len(),
    {
        let popped = self.free.pop();
        let r: ArenaIndex;
        match popped {
            Some(i) => {
                let s = &mut self.slots[i as usize];
                s.value = Some(value);
                r = ArenaIndex { index: i, generation: s.generation };
                proof {
                    assert forall|s2: int|
                        0 <= s2 < self.slots@.len() && (#[trigger] self.slots@[s2]).value is None
                            implies self.free@.contains(s2 as u32) by {
                        assert(old(self).slots@[s2].value is None);
                        assert(old(self).free@.contains(s2 as u32));
                        let p = choose|p: int|
                            0 <= p < old(self).free@.len() && old(self).free@[p] == s2 as u32;
                        assert(p < old(self).free@.len() - 1);
                        assert(self.free@[p] == s2 as u32);
                    }
                }
            },
            None => {
                let i = self.slots.len();
                self.slots.push(ArenaSlot { generation: 0, value: Some(value) });
                r = ArenaIndex { index: i as u32, generation: 0 };
            },
        }
        proof {
            assert(self@ =~= old(self)@.insert(r, value));
        }
        r
    }

    /// Removes the entry a handle resolves to, frees its slot and advances
    /// the slot's generation.  A stale or already-removed handle is a
    /// silent `None`.
    pub fn remove(&mut self, idx: ArenaIndex) -> (r: Option<T>)
        requires
            old(self).wf(),
        ensures
            final(self).wf(),
            old(self).is_live(idx) ==> {
                &&& r == Some(old(self).value_of(idx))
                &&& forall|h: ArenaIndex| h.index == idx.index ==> !final(self).is_live(h)
                &&& final(self).slots@[idx.index as int].generation == next_generation(
                    idx.generation,
                )
                &&& final(self)@ == old(self)@.remove(idx)
            },
            !old(self).is_live(idx) ==> r is None && *final(self) == *old(self),
            forall|h: ArenaIndex|
                h.index != idx.index ==> (#[trigger] final(self).is_live(h) <==> old(self).is_live(h)),
            forall|h: ArenaIndex|
                h.index != idx.index && final(self).is_live(h) ==> #[trigger] final(self).value_of(h) == old(self).value_of(h),
            final(self).slots@.len() == old(self).slots@.len(),
    {
        if self.contains(idx) {
            let s = &mut self.slots[idx.index as usize];
            let v = s.value.take();
            s.generation = if s.generation == 0xffff_ffffu32 {
                0u32
            } else {
                s.generation + 1
            };
            self.free.push(idx.index);
            proof {
                assert forall|p: int, q: int|
                    0 <= p < q < self.free@.len() implies #[trigger] self.free@[p]
                    != #[trigger] self.free@[q] by {
                    if q == self.free@.len() - 1 {
                        assert(old(self).slots@[self.free@[p] as int].value is None);
                    }
                }
                assert forall|s2: int|
                    0 <= s2 < self.slots@.len() && (#[trigger] self.slots@[s2]).value is None
                        implies self.free@.contains(s2 as u32) by {
                    if s2 == idx.index as int {
                        assert(self.free@[self.free@.len() - 1] == idx.index);
                    } else {
                        assert(old(self).slots@[s2].value is None);
                        let p = choose|p: int|
                            0 <= p < old(self).free@.len() && old(self).free@[p] == s2 as u32;
                        assert(self.free@[p] == s2 as u32);
                    }
                }
                assert(self@ =~= old(self)@.remove(idx));
            }
            v
        } else {
            None
        }
    }

    /// Generation-checked lookup.
    pub fn get(&self, idx: ArenaIndex) -> (r: Option<&T>)
        ensures
            match r {
                Some(v) => self.is_live(idx) && *v == self.value_of(idx),
                None => !self.is_live(idx),
            },
    {
        if (idx.index as usize) < self.slots.len() {
            let s = &self.slots[idx.index as usize];
            if s.generation == idx.generation {
                s.value.as_ref()
            } else {
                None
            }
        } else {
            None
        }
    }

    /// Does the handle currently resolve to an entry?
    pub fn contains(&self, idx: ArenaIndex) -> (r: bool)
        ensures
            r == self.is_live(idx),
    {
        if (idx.index as usize) < self.slots.len() {
            let s = &self.slots[idx.index as usize];
            s.generation == idx.generation && s.value.is_some()
        } else {
            false
        }
    }

    /// Overwrites the value of a live entry, leaving every other slot and
    /// all generations untouched.
    pub fn set_value(&mut self, idx: ArenaIndex, value: T)
        requires
            old(self).wf(),
            old(self).is_live(idx),
        ensures
            final(self).wf(),
            final(self).is_live(idx),
            final(self).value_of(idx) == value,
            forall|h: ArenaIndex| #[trigger] final(self).is_live(h) <==> old(self).is_live(h),
            forall|h: ArenaIndex|
                h != idx && final(self).is_live(h) ==> #[trigger] final(self).value_of(h) == old(self).value_of(h),
            final(self)@ == old(self)@.insert(idx, value),
            final(self).slots@.len() == old(self).slots@.len(),
            final(self).free == old(self).free,
    {
        let s = &mut self.slots[idx.index as usize];
        s.value = Some(value);
        proof {
            assert(self@ =~= old(self)@.insert(idx, value));
        }
    }

    /// Lookup by slot position alone, with the slot's current generation
    /// assumed.  This bypasses the ABA protection a full handle provides:
    /// it is meant for callers that already disambiguated identity another
    /// way, such as "the entry at position `i` right now".
    pub fn get_unknown_gen(&self, i: u32) -> (r: Option<(&T, ArenaIndex)>)
        ensures
            match r {
                Some(p) => {
                    &&& self.occupied_at(i)
                    &&& p.1 == self.handle_at(i)
                    &&& self.is_live(p.1)
                    &&& *p.0 == self.value_of(p.1)
                },
                None => !self.occupied_at(i),
            },
    {
        if (i as usize) < self.slots.len() {
            let s = &self.slots[i as usize];
            match s.value.as_ref() {
                Some(v) => Some((v, ArenaIndex { index: i, generation: s.generation })),
                None => None,
            }
        } else {
            None
        }
    }
}

impl<T> View for Arena<T> {
    type V = Map<ArenaIndex, T>;

    /// The arena viewed as the finite map from live handles to values.
    open spec fn view(&self) -> Map<ArenaIndex, T> {
        Map::new(|h: ArenaIndex| self.is_live(h), |h: ArenaIndex| self.value_of(h))
    }
}

} // verus!
