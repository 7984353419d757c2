use vstd::prelude::*;

use crate::shape::Shape;

verus! {

/// An allocation of `size` bytes at `level` fits in a region of `capacity` bytes.
pub open spec fn fits(level: int, capacity: int, size: int) -> bool {
    size <= capacity - level
}

/// The bump level after trying to allocate `size` bytes at `level`.
pub open spec fn next_level(level: int, capacity: int, size: int) -> int {
    if fits(level, capacity, size) {
        level + size
    } else {
        level
    }
}

/// The bump level after `n` attempts to allocate `size` bytes each, from the start of a
/// fresh region.
pub open spec fn level_after(capacity: int, size: int, n: nat) -> int
    decreases n,
{
    if n == 0 {
        0
    } else {
        next_level(level_after(capacity, size, (n - 1) as nat), capacity, size)
    }
}

/// Allocating objects of one size from a fresh region: the `n`-th allocation succeeds exactly
/// when `n` objects fit in the capacity, and the ones before it were laid end to end.
pub proof fn lemma_bump_sequence(capacity: nat, size: nat, n: nat)
    requires
        n >= 1,
        (n - 1) * size <= capacity,
    ensures
        level_after(capacity as int, size as int, (n - 1) as nat) == (n - 1) * size,
        fits(level_after(capacity as int, size as int, (n - 1) as nat), capacity as int, size as int)
            <==> n * size <= capacity,
    decreases n,
{
    let c = capacity as int;
    let s = size as int;
    let m = (n - 1) as nat;
    if n == 1 {
        assert(level_after(c, s, 0) == 0);
        assert((n - 1) * size == 0) by (nonlinear_arith)
            requires
                n == 1,
        ;
        assert(n * size == size) by (nonlinear_arith)
            requires
                n == 1,
        ;
    } else {
        let k = (n - 2) as nat;
        assert((n - 2) * size <= (n - 1) * size) by (nonlinear_arith)
            requires
                n >= 2,
        ;
        lemma_bump_sequence(capacity, size, m);
        assert(k * size + size == m * size) by (nonlinear_arith)
            requires
                k + 1 == m,
        ;
        assert(level_after(c, s, m) == next_level(level_after(c, s, k), c, s));
    }
    assert(m * size + size == n * size) by (nonlinear_arith)
        requires
            m + 1 == n,
    ;
}

/// A fixed-capacity region with a bump level, holding the shapes retained in it. Nothing is
/// freed one by one: `reset` empties the whole region.
pub struct ScratchArena {
    capacity: usize,
    level: usize,
    slots: Vec<Shape>,
}

impl ScratchArena {
    pub closed spec fn spec_capacity(&self) -> int {
        self.capacity as int
    }

    pub closed spec fn spec_level(&self) -> int {
        self.level as int
    }

    /// The shapes retained since the last reset, in allocation order.
    pub closed spec fn slots(&self) -> Seq<Shape> {
        self.slots@
    }

    pub closed spec fn wf(&self) -> bool {
        self.level <= self.capacity
    }

    pub fn new(capacity: usize) -> (a: ScratchArena)
        ensures
            a.wf(),
            a.spec_capacity() == capacity,
            a.spec_level() == 0,
            a.slots() == Seq::<Shape>::empty(),
    {
        ScratchArena { capacity, level: 0, slots: Vec::new() }
    }

    pub fn capacity(&self) -> (r: usize)
        ensures
            r == self.spec_capacity(),
    {
        self.capacity
    }

    pub fn level(&self) -> (r: usize)
        ensures
            r == self.spec_level(),
    {
        self.level
    }

    pub fn len(&self) -> (r: usize)
        ensures
            r == self.slots().len(),
    {
        self.slots.len()
    }

    /// Reserves `size` bytes; returns their offset, or `None` when the region is exhausted.
    pub fn reserve(&mut self, size: usize) -> (r: Option<usize>)
        requires
            old(self).wf(),
        ensures
            final(self).wf(),
            final(self).spec_capacity() == old(self).spec_capacity(),
            final(self).slots() == old(self).slots(),
            final(self).spec_level() == next_level(
                old(self).spec_level(),
                old(self).spec_capacity(),
                size as int,
            ),
            fits(old(self).spec_level(), old(self).spec_capacity(), size as int) ==> r == Some(
                old(self).spec_level() as usize,
            ),
            !fits(old(self).spec_level(), old(self).spec_capacity(), size as int) ==> r.is_none(),
    {
        if size <= self.capacity - self.level {
            let at = self.level;
            self.level = self.level + size;
            Some(at)
        } else {
            None
        }
    }

    /// Moves `shape` into the region; returns its slot, or `None` when the region cannot hold
    /// another shape, in which case nothing changes.
    pub fn retain(&mut self, shape: Shape) -> (r: Option<usize>)
        requires
            old(self).wf(),
        ensures
            final(self).wf(),
            final(self).spec_capacity() == old(self).spec_capacity(),
            final(self).spec_level() == next_level(
                old(self).spec_level(),
                old(self).spec_capacity(),
                vstd::layout::size_of::<Shape>() as int,
            ),
            fits(
                old(self).spec_level(),
                old(self).spec_capacity(),
                vstd::layout::size_of::<Shape>() as int,
            ) ==> r.is_some() && r.unwrap() == old(self).slots().len() && final(self).slots() == old(
                self,
            ).slots().push(shape),
            !fits(
                old(self).spec_level(),
                old(self).spec_capacity(),
                vstd::layout::size_of::<Shape>() as int,
            ) ==> r.is_none() && final(self).slots() == old(self).slots(),
    {
        let size = core::mem::size_of::<Shape>();
        match self.reserve(size) {
            Some(_) => {
                let at = self.slots.len();
                self.slots.push(shape);
                Some(at)
            },
            None => None,
        }
    }

    /// The shape retained in `slot`, if any.
    pub fn get(&self, slot: usize) -> (r: Option<&Shape>)
        ensures
            slot < self.slots().len() ==> r == Some(&self.slots()[slot as int]),
            slot >= self.slots().len() ==> r.is_none(),
    {
        if slot < self.slots.len() {
            Some(&self.slots[slot])
        } else {
            None
        }
    }

    /// Empties the region: every retained shape is dropped and the level returns to the start.
    pub fn reset(&mut self)
        ensures
            final(self).wf(),
            final(self).spec_capacity() == old(self).spec_capacity(),
            final(self).spec_level() == 0,
            final(self).slots() == Seq::<Shape>::empty(),
    {
        self.level = 0;
        self.slots = Vec::new();
    }
}

} // verus!
