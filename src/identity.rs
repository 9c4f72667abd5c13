use vstd::prelude::*;
use crate::id::{Epoch, Id, Index};

verus! {

/// Mints and recycles `(index, epoch)` pairs for one handle kind.
///
/// `epochs[i]` is the epoch that a live handle of slot `i` carries; a slot
/// on the free list has no live handle. A new slot starts at epoch 1, and
/// freeing a slot moves it to the next epoch.
#[derive(Debug)]
pub struct IdentityManager<K> {
    free: Vec<Index>,
    epochs: Vec<Epoch>,
    kind: core::marker::PhantomData<K>,
}

impl<K> IdentityManager<K> {
    /// The indices waiting to be reused, most recently freed last.
    pub closed spec fn free_list(&self) -> Seq<Index> {
        self.free@
    }

    /// The current epoch of every slot created so far.
    pub closed spec fn epoch_seq(&self) -> Seq<Epoch> {
        self.epochs@
    }

    /// Every free index names an existing slot and appears once; every
    /// slot's epoch is at least 1.
    pub open spec fn wf(&self) -> bool {
        &&& self.free_list().no_duplicates()
        &&& forall|k: int|
            0 <= k < self.free_list().len() ==> (#[trigger] self.free_list()[k] as int)
                < self.epoch_seq().len()
        &&& forall|i: int| 0 <= i < self.epoch_seq().len() ==> #[trigger] self.epoch_seq()[i] >= 1
    }

    /// Slot `i` exists and is handed out (not on the free list).
    pub open spec fn in_use(&self, i: Index) -> bool {
        &&& (i as int) < self.epoch_seq().len()
        &&& !self.free_list().contains(i)
    }

    /// `id` is the handle currently handed out for its slot.
    pub open spec fn is_live(&self, id: Id<K>) -> bool {
        &&& self.in_use(id.index)
        &&& self.epoch_seq()[id.index as int] == id.epoch
    }

    /// `allocate` can hand out a handle: a freed slot waits, or a new index fits.
    pub open spec fn can_alloc(&self) -> bool {
        self.free_list().len() > 0 || self.epoch_seq().len() < Index::MAX as nat
    }

    /// `post` and `id` are what `allocate` makes of `pre`: the most recently
    /// freed slot at its current epoch, or else a new slot at epoch 1.
    pub open spec fn alloc_step(pre: Self, id: Id<K>, post: Self) -> bool {
        if pre.free_list().len() > 0 {
            &&& id.index == pre.free_list().last()
            &&& id.epoch == pre.epoch_seq()[id.index as int]
            &&& post.free_list() == pre.free_list().drop_last()
            &&& post.epoch_seq() == pre.epoch_seq()
        } else {
            &&& id.index as int == pre.epoch_seq().len()
            &&& id.epoch == 1
            &&& post.free_list() == pre.free_list()
            &&& post.epoch_seq() == pre.epoch_seq().push(1)
        }
    }

    /// `post` is what `free(id)` makes of `pre`: the slot moves to the next
    /// epoch and goes to the end of the free list.
    pub open spec fn free_step(pre: Self, id: Id<K>, post: Self) -> bool {
        &&& post.epoch_seq() == pre.epoch_seq().update(id.index as int, (id.epoch + 1) as Epoch)
        &&& post.free_list() == pre.free_list().push(id.index)
    }

    /// No slot of `pre` has a later epoch than in `post`.
    pub open spec fn epochs_le(pre: Self, post: Self) -> bool {
        &&& pre.epoch_seq().len() <= post.epoch_seq().len()
        &&& forall|i: int|
            0 <= i < pre.epoch_seq().len() ==> #[trigger] pre.epoch_seq()[i] <= post.epoch_seq()[i]
    }

    /// An allocator with no slots.
    pub fn new() -> (r: Self)
        ensures
            r.wf(),
            r.free_list() == Seq::<Index>::empty(),
            r.epoch_seq() == Seq::<Epoch>::empty(),
    {
        IdentityManager { free: Vec::new(), epochs: Vec::new(), kind: core::marker::PhantomData }
    }

    /// Whether `allocate` may be called.
    pub fn has_capacity(&self) -> (r: bool)
        ensures
            r == self.can_alloc(),
    {
        self.free.len() > 0 || self.epochs.len() < Index::MAX as usize
    }

    /// Whether `id` is the live handle of its slot, which `free` requires.
    pub fn is_allocated(&self, id: Id<K>) -> (r: bool)
        requires
            self.wf(),
        ensures
            r == self.is_live(id),
    {
        let i = id.index as usize;
        if i >= self.epochs.len() || self.epochs[i] != id.epoch {
            return false;
        }
        let mut k: usize = 0;
        while k < self.free.len()
            invariant
                k <= self.free@.len(),
                forall|j: int| 0 <= j < k ==> self.free@[j] != id.index,
            decreases self.free@.len() - k,
        {
            if self.free[k] == id.index {
                return false;
            }
            k += 1;
        }
        true
    }

    /// Hands out a handle: the most recently freed slot at its current
    /// epoch, or a new slot at epoch 1.
    pub fn allocate(&mut self) -> (r: Id<K>)
        requires
            old(self).wf(),
            old(self).can_alloc(),
        ensures
            Self::alloc_step(*old(self), r, *final(self)),
            final(self).wf(),
            final(self).is_live(r),
    {
        match self.free.pop() {
            Some(index) => {
                assert(old(self).free_list()[old(self).free_list().len() - 1] == index);
                let id = Id::new(index, self.epochs[index as usize]);
                proof {
                    lemma_alloc_step_facts::<K>(*old(self), id, *self);
                }
                id
            },
            None => {
                let id = Id::new(self.epochs.len() as Index, 1);
                self.epochs.push(id.epoch());
                proof {
                    lemma_alloc_step_facts::<K>(*old(self), id, *self);
                }
                id
            },
        }
    }

    /// Takes back the live handle `id`: its slot moves to the next epoch,
    /// so `id` is stale from now on, and the index may be handed out again.
    pub fn free(&mut self, id: Id<K>)
        requires
            old(self).wf(),
            old(self).is_live(id),
            id.epoch < Epoch::MAX,
        ensures
            Self::free_step(*old(self), id, *final(self)),
            final(self).wf(),
            !final(self).is_live(id),
    {
        let i = id.index as usize;
        let next = self.epochs[i] + 1;
        self.epochs.set(i, next);
        self.free.push(id.index);
        proof {
            lemma_free_step_facts::<K>(*old(self), id, *self);
        }
    }
}

impl<K> Default for IdentityManager<K> {
    fn default() -> (r: Self)
        ensures
            r.wf(),
            r.free_list() == Seq::<Index>::empty(),
            r.epoch_seq() == Seq::<Epoch>::empty(),
    {
        IdentityManager::new()
    }
}

/// What one `allocate` step keeps: well-formedness, and the handed-out slot was
/// free before and is in use after, every other slot keeping its state.
pub proof fn lemma_alloc_step_facts<K>(pre: IdentityManager<K>, id: Id<K>, post: IdentityManager<K>)
    requires
        pre.wf(),
        IdentityManager::alloc_step(pre, id, post),
    ensures
        post.wf(),
        !pre.in_use(id.index),
        post.is_live(id),
        forall|i: Index| i != id.index ==> (post.in_use(i) == pre.in_use(i)),
        IdentityManager::epochs_le(pre, post),
{
    let f = pre.free_list();
    if f.len() > 0 {
        assert(f == f.drop_last().push(f.last()));
        assert(f.contains(id.index));
        assert(!post.free_list().contains(id.index)) by {
            if post.free_list().contains(id.index) {
                let k = choose|k: int| 0 <= k < post.free_list().len() && post.free_list()[k] == id.index;
                assert(f[k] == f[f.len() - 1]);
            }
        }
        assert forall|i: Index| i != id.index implies (post.in_use(i) == pre.in_use(i)) by {
            if (i as int) < pre.epoch_seq().len() {
                if f.contains(i) {
                    let k = choose|k: int| 0 <= k < f.len() && f[k] == i;
                    assert(k != f.len() - 1);
                    assert(post.free_list()[k] == i);
                }
                if post.free_list().contains(i) {
                    let k = choose|k: int| 0 <= k < post.free_list().len() && post.free_list()[k] == i;
                    assert(f[k] == i);
                }
            }
        }
    } else {
        assert forall|i: Index| i != id.index implies (post.in_use(i) == pre.in_use(i)) by {}
    }
}

/// What one `free` step keeps: well-formedness, and the freed slot is no
/// longer in use, every other slot keeping its state.
pub proof fn lemma_free_step_facts<K>(pre: IdentityManager<K>, id: Id<K>, post: IdentityManager<K>)
    requires
        pre.wf(),
        pre.is_live(id),
        id.epoch < Epoch::MAX,
        IdentityManager::free_step(pre, id, post),
    ensures
        post.wf(),
        !post.in_use(id.index),
        !post.is_live(id),
        post.epoch_seq()[id.index as int] == id.epoch + 1,
        forall|i: Index| i != id.index ==> (post.in_use(i) == pre.in_use(i)),
        IdentityManager::epochs_le(pre, post),
{
    let f = pre.free_list();
    assert(post.free_list().last() == id.index);
    assert(post.free_list().contains(id.index));
    assert forall|i: Index| i != id.index implies (post.in_use(i) == pre.in_use(i)) by {
        if f.contains(i) {
            let k = choose|k: int| 0 <= k < f.len() && f[k] == i;
            assert(post.free_list()[k] == i);
        }
        if post.free_list().contains(i) {
            let k = choose|k: int| 0 <= k < post.free_list().len() && post.free_list()[k] == i;
            if k < f.len() {
                assert(f[k] == i);
            }
        }
    }
    assert forall|a: int, b: int|
        0 <= a < post.free_list().len() && 0 <= b < post.free_list().len() && a != b
        implies post.free_list()[a] != post.free_list()[b] by {
        if a < f.len() && b < f.len() {
        } else if a < f.len() {
            assert(f.contains(f[a]));
        } else {
            assert(f.contains(f[b]));
        }
    }
}

/// Epochs never go back across two stretches of steps that each keep them.
pub proof fn lemma_epochs_le_trans<K>(a: IdentityManager<K>, b: IdentityManager<K>, c: IdentityManager<K>)
    requires
        IdentityManager::epochs_le(a, b),
        IdentityManager::epochs_le(b, c),
    ensures
        IdentityManager::epochs_le(a, c),
{
    assert forall|i: int| 0 <= i < a.epoch_seq().len() implies #[trigger] a.epoch_seq()[i]
        <= c.epoch_seq()[i] by {
        assert(b.epoch_seq()[i] <= c.epoch_seq()[i]);
    }
}

proof fn lemma_allocations_in_use<K>(ms: Seq<IdentityManager<K>>, ids: Seq<Id<K>>, n: int)
    requires
        ms.len() == ids.len() + 1,
        ms[0].wf(),
        forall|k: int|
            0 <= k < ids.len() ==> IdentityManager::alloc_step(#[trigger] ms[k], ids[k], ms[k + 1]),
        0 <= n <= ids.len(),
    ensures
        ms[n].wf(),
        forall|j: int| 0 <= j < n ==> ms[n].in_use(#[trigger] ids[j].index),
    decreases n,
{
    if n > 0 {
        lemma_allocations_in_use(ms, ids, n - 1);
        assert(IdentityManager::alloc_step(ms[n - 1], ids[n - 1], ms[n]));
        lemma_alloc_step_facts(ms[n - 1], ids[n - 1], ms[n]);
        assert forall|j: int| 0 <= j < n implies ms[n].in_use(#[trigger] ids[j].index) by {
            if j < n - 1 {
                assert(ms[n - 1].in_use(ids[j].index));
            }
        }
    }
}

/// Handles handed out by successive `allocate` calls, with no `free` in
/// between, have pairwise distinct indices.
pub proof fn lemma_allocations_distinct<K>(ms: Seq<IdentityManager<K>>, ids: Seq<Id<K>>)
    requires
        ms.len() == ids.len() + 1,
        ms[0].wf(),
        forall|k: int|
            0 <= k < ids.len() ==> IdentityManager::alloc_step(#[trigger] ms[k], ids[k], ms[k + 1]),
    ensures
        forall|j: int, k: int| 0 <= j < k < ids.len() ==> ids[j].index != ids[k].index,
{
    assert forall|j: int, k: int| 0 <= j < k < ids.len() implies ids[j].index != ids[k].index by {
        lemma_allocations_in_use(ms, ids, k);
        assert(ms[k].in_use(ids[j].index));
        assert(IdentityManager::alloc_step(ms[k], ids[k], ms[k + 1]));
        lemma_alloc_step_facts(ms[k], ids[k], ms[k + 1]);
    }
}

/// After `free(id)`, and any later steps that keep epochs from going back,
/// the next handle handed out for the same slot has a larger epoch than `id`.
pub proof fn lemma_epoch_increases<K>(
    pre: IdentityManager<K>,
    id: Id<K>,
    freed: IdentityManager<K>,
    later: IdentityManager<K>,
    next: Id<K>,
    post: IdentityManager<K>,
)
    requires
        pre.wf(),
        pre.is_live(id),
        id.epoch < Epoch::MAX,
        IdentityManager::free_step(pre, id, freed),
        IdentityManager::epochs_le(freed, later),
        IdentityManager::alloc_step(later, next, post),
        next.index == id.index,
    ensures
        next.epoch > id.epoch,
{
    lemma_free_step_facts(pre, id, freed);
    assert(later.epoch_seq()[id.index as int] >= freed.epoch_seq()[id.index as int]);
}

/// A freed handle stays stale: after `free(id)`, and any later steps that
/// keep epochs from going back, `id` is no longer live, so `free` refuses it.
pub proof fn lemma_freed_handle_stays_stale<K>(
    pre: IdentityManager<K>,
    id: Id<K>,
    freed: IdentityManager<K>,
    later: IdentityManager<K>,
)
    requires
        pre.wf(),
        pre.is_live(id),
        id.epoch < Epoch::MAX,
        IdentityManager::free_step(pre, id, freed),
        IdentityManager::epochs_le(freed, later),
    ensures
        !later.is_live(id),
{
    lemma_free_step_facts(pre, id, freed);
    assert(later.epoch_seq()[id.index as int] >= freed.epoch_seq()[id.index as int]);
}

/// The slot freed last is the one handed out next, one epoch later.
pub proof fn lemma_freed_slot_reused<K>(
    pre: IdentityManager<K>,
    id: Id<K>,
    freed: IdentityManager<K>,
    next: Id<K>,
    post: IdentityManager<K>,
)
    requires
        pre.wf(),
        pre.is_live(id),
        id.epoch < Epoch::MAX,
        IdentityManager::free_step(pre, id, freed),
        IdentityManager::alloc_step(freed, next, post),
    ensures
        next.index == id.index,
        next.epoch == id.epoch + 1,
{
    lemma_free_step_facts(pre, id, freed);
}

} // verus!
