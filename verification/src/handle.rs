//! Generation-stamped handles and the slot store they index.
//!
//! A `Handle` is a pair of a slot index and a generation stamp.  A `Store`
//! keeps one generation counter; removing an entry advances the counter, and
//! an insertion stamps the returned handle with the counter's current value.
//! A lookup succeeds only when the slot still carries the handle's stamp, so
//! a handle to a removed entry can never silently resolve to a later entry
//! that reuses the same slot.
use vstd::prelude::*;

verus! {

/// A generation-stamped index identifying one live entry of a [`Store`].
#[derive(Clone, Copy, PartialEq, Eq, Structural, Hash, Debug)]
pub struct Handle {
    pub index: usize,
    pub generation: u64,
}

/// One slot of a [`Store`]: vacant, or holding a value stamped with the
/// generation under which it was inserted.
pub enum Slot<T> {
    Vacant,
    Full { generation: u64, value: T },
}

/// A slot store addressed by generation-stamped handles.
///
/// The fields are public so that specifications elsewhere in the crate can
/// speak about slot order; all mutation is expected to preserve [`Store::wf`].
pub struct Store<T> {
    pub slots: Vec<Slot<T>>,
    pub generation: u64,
}

impl<T> Store<T> {
    /// Every full slot is stamped no later than the store's own counter.
    pub open spec fn wf(self) -> bool {
        forall|i: int| 0 <= i < self.slots@.len() ==>
            (#[trigger] self.slots@[i] matches Slot::Full { generation, .. }
                ==> generation <= self.generation)
    }

    /// `h` currently resolves to an entry.
    pub open spec fn live(self, h: Handle) -> bool {
        &&& h.index < self.slots@.len()
        &&& self.slots@[h.index as int] matches Slot::Full { generation, .. }
                && generation == h.generation
    }

    /// The value `h` resolves to.
    pub open spec fn value_of(self, h: Handle) -> T
        recommends
            self.live(h),
    {
        self.slots@[h.index as int]->value
    }

    /// `h` belonged to an entry that has since been removed: the store's
    /// counter has moved past its stamp, and it no longer resolves.
    pub open spec fn dead(self, h: Handle) -> bool {
        &&& h.generation < self.generation
        &&& !self.live(h)
    }

    pub fn new() -> (s: Store<T>)
        ensures
            s.wf(),
            s.generation == 0,
            s.slots@.len() == 0,
            forall|h: Handle| !s.live(h),
    {
        Store { slots: Vec::new(), generation: 0 }
    }

    /// Places `value` in a vacant slot (or a fresh one) and returns a handle
    /// stamped with the current generation.
    pub fn insert(&mut self, value: T) -> (h: Handle)
        requires
            old(self).wf(),
        ensures
            final(self).wf(),
            insert_step(*old(self), *final(self), value, h),
            final(self).generation == old(self).generation,
            h.index <= old(self).slots@.len(),
            h.index == old(self).slots@.len() ==> final(self).slots@ == old(self).slots@.push(
                Slot::Full { generation: h.generation, value }),
            h.index < old(self).slots@.len() ==> old(self).slots@[h.index as int] is Vacant
                && final(self).slots@ == old(self).slots@.update(
                h.index as int,
                Slot::Full { generation: h.generation, value },
            ),
    {
        let gen = self.generation;
        let n = self.slots.len();
        let mut target: usize = n;
        let mut i: usize = 0;
        while i < n
            invariant
                i <= n,
                n == self.slots@.len(),
                *self == *old(self),
                gen == self.generation,
                target == n || (target < n && self.slots@[target as int] is Vacant),
            decreases n - i,
        {
            if target == n && self.slots[i].is_vacant() {
                target = i;
            }
            i = i + 1;
        }
        if target < n {
            self.slots.set(target, Slot::Full { generation: gen, value });
            Handle { index: target, generation: gen }
        } else {
            self.slots.push(Slot::Full { generation: gen, value });
            Handle { index: target, generation: gen }
        }
    }

    /// Removes the entry `h` resolves to, if any, and advances the
    /// generation counter so that `h` can never resolve again.
    pub fn remove(&mut self, h: Handle) -> (r: Option<T>)
        requires
            old(self).wf(),
        ensures
            final(self).wf(),
            old(self).live(h) ==> (r matches Some(v) && v == old(self).value_of(h)),
            !old(self).live(h) ==> r is None,
            remove_step(*old(self), *final(self), h),
    {
        if h.index >= self.slots.len() {
            return None;
        }
        let hit = match &self.slots[h.index] {
            Slot::Full { generation, .. } => *generation == h.generation,
            Slot::Vacant => false,
        };
        if !hit {
            return None;
        }
        let slot = self.slots.remove(h.index);
        self.slots.insert(h.index, Slot::Vacant);
        proof {
            lemma_remove_insert_is_update(old(self).slots@, h.index as int, Slot::Vacant);
        }
        if self.generation < u64::MAX {
            self.generation = self.generation + 1;
        }
        match slot {
            Slot::Full { value, .. } => Some(value),
            Slot::Vacant => None,
        }
    }

    /// Borrows the entry `h` resolves to, or reports that `h` is stale.
    pub fn get(&self, h: Handle) -> (r: Option<&T>)
        ensures
            self.live(h) ==> (r matches Some(v) && *v == self.value_of(h)),
            !self.live(h) ==> r is None,
    {
        if h.index >= self.slots.len() {
            return None;
        }
        match &self.slots[h.index] {
            Slot::Full { generation, value } => {
                if *generation == h.generation {
                    Some(value)
                } else {
                    None
                }
            }
            Slot::Vacant => None,
        }
    }

    /// The handle of the entry occupying slot `i`, if that slot is full.
    pub fn handle_at(&self, i: usize) -> (r: Option<Handle>)
        requires
            i < self.slots@.len(),
        ensures
            self.slots@[i as int] matches Slot::Full { generation, .. }
                ==> (r matches Some(h) && h == (Handle { index: i, generation })),
            self.slots@[i as int] is Vacant ==> r is None,
    {
        match &self.slots[i] {
            Slot::Full { generation, .. } => Some(Handle { index: i, generation: *generation }),
            Slot::Vacant => None,
        }
    }

    /// The number of slots (full or vacant) currently allocated.
    pub fn slot_count(&self) -> (n: usize)
        ensures
            n == self.slots@.len(),
    {
        self.slots.len()
    }
}

impl<T> Slot<T> {
    pub fn is_vacant(&self) -> (b: bool)
        ensures
            b == (*self is Vacant),
    {
        match self {
            Slot::Vacant => true,
            Slot::Full { .. } => false,
        }
    }
}

/// What [`Store::insert`] did: `h` is fresh, stamped with the unchanged
/// generation counter, holds `value`, and every other handle is untouched.
pub open spec fn insert_step<T>(pre: Store<T>, post: Store<T>, value: T, h: Handle) -> bool {
    &&& h.generation == pre.generation
    &&& post.generation == pre.generation
    &&& !pre.live(h)
    &&& post.live(h)
    &&& post.value_of(h) == value
    &&& forall|h2: Handle| h2 != h ==> (post.live(h2) <==> pre.live(h2))
    &&& forall|h2: Handle| h2 != h && pre.live(h2) ==> post.value_of(h2) == pre.value_of(h2)
}

/// What [`Store::remove`] did: `h` no longer resolves, the generation counter
/// moved strictly past `h`'s stamp (as far as the counter's width allows),
/// and every other handle is untouched.
pub open spec fn remove_step<T>(pre: Store<T>, post: Store<T>, h: Handle) -> bool {
    &&& post.generation >= pre.generation
    &&& !post.live(h)
    &&& pre.live(h) && h.generation < u64::MAX ==> post.generation > h.generation
    &&& !pre.live(h) ==> post == pre
    &&& forall|h2: Handle| h2 != h ==> (post.live(h2) <==> pre.live(h2))
    &&& forall|h2: Handle| h2 != h && pre.live(h2) ==> post.value_of(h2) == pre.value_of(h2)
}

/// A store mutation that replaces values of live entries but neither creates
/// nor removes entries and leaves the generation counter alone.
pub open spec fn mutate_step<T>(pre: Store<T>, post: Store<T>) -> bool {
    &&& post.generation == pre.generation
    &&& forall|h2: Handle| post.live(h2) <==> pre.live(h2)
}

/// Any one step a frame of this library performs on a store.
pub open spec fn store_step<T>(pre: Store<T>, post: Store<T>) -> bool {
    ||| exists|value: T, h: Handle| insert_step(pre, post, value, h)
    ||| exists|h: Handle| remove_step(pre, post, h)
    ||| mutate_step(pre, post)
}

/// A removed handle stays removed across any single store step.
pub proof fn lemma_step_preserves_dead<T>(pre: Store<T>, post: Store<T>, a: Handle)
    requires
        store_step(pre, post),
        pre.dead(a),
    ensures
        post.dead(a),
{
    if exists|value: T, h: Handle| insert_step(pre, post, value, h) {
        let (value, h) = choose|value: T, h: Handle| insert_step(pre, post, value, h);
        assert(h.generation == pre.generation);
        assert(a != h);
        assert(!post.live(a));
    } else if exists|h: Handle| remove_step(pre, post, h) {
        let h = choose|h: Handle| remove_step(pre, post, h);
        if a == h {
            assert(!post.live(a));
        } else {
            assert(!post.live(a));
        }
    } else {
        assert(mutate_step(pre, post));
    }
}

/// Handle stability: once an entry is removed, its handle resolves in no
/// later state of the same store, whatever insertions, removals and updates
/// happen in between.
pub proof fn lemma_handle_stability<T>(states: Seq<Store<T>>, a: Handle)
    requires
        states.len() > 0,
        states[0].dead(a),
        forall|i: int| 0 <= i < states.len() - 1 ==> store_step(#[trigger] states[i], states[i + 1]),
    ensures
        forall|i: int| 0 <= i < states.len() ==> (#[trigger] states[i]).dead(a),
    decreases states.len(),
{
    if states.len() > 1 {
        lemma_step_preserves_dead(states[0], states[1], a);
        let tail = states.drop_first();
        assert forall|i: int| 0 <= i < tail.len() - 1 implies
            store_step(#[trigger] tail[i], tail[i + 1]) by {
            assert(tail[i] == states[i + 1]);
            assert(tail[i + 1] == states[i + 2]);
        }
        lemma_handle_stability(tail, a);
        assert forall|i: int| 0 <= i < states.len() implies (#[trigger] states[i]).dead(a) by {
            if i > 0 {
                assert(tail[i - 1] == states[i]);
                assert(tail[i - 1].dead(a));
            }
        }
    }
}

/// Handle stability, at the moment of reuse: an insertion never hands back a
/// handle equal to one whose entry was removed earlier.
pub proof fn lemma_insert_never_reuses_dead<T>(
    pre: Store<T>,
    post: Store<T>,
    value: T,
    b: Handle,
    a: Handle,
)
    requires
        insert_step(pre, post, value, b),
        pre.dead(a),
    ensures
        a != b,
        !post.live(a),
{
    assert(b.generation == pre.generation);
}

proof fn lemma_remove_insert_is_update<T>(s: Seq<T>, i: int, x: T)
    requires
        0 <= i < s.len(),
    ensures
        s.remove(i).insert(i, x) =~= s.update(i, x),
{
    let lhs = s.remove(i).insert(i, x);
    let rhs = s.update(i, x);
    assert(lhs.len() == rhs.len());
    assert forall|j: int| 0 <= j < lhs.len() implies lhs[j] == rhs[j] by {
        if j < i {
        } else if j == i {
        } else {
        }
    }
}

} // verus!
