use vstd::prelude::*;
use crate::id::{Epoch, Id, Index};

verus! {

/// A sparse map from slot index to a payload and the epoch of the handle
/// it was stored under. It grows as needed and never holds two entries
/// for one index.
#[derive(Debug)]
pub struct Storage<T, K> {
    map: Vec<Option<(T, Epoch)>>,
    kind: core::marker::PhantomData<K>,
}

impl<T, K> View for Storage<T, K> {
    type V = Map<Index, (T, Epoch)>;

    closed spec fn view(&self) -> Map<Index, (T, Epoch)> {
        Map::new(
            |i: Index| (i as int) < self.map@.len() && self.map@[i as int] is Some,
            |i: Index| self.map@[i as int]->Some_0,
        )
    }
}

proof fn lemma_view_update<T, K>(pre: Storage<T, K>, i: Index)
    requires
        (i as int) < pre.map@.len(),
    ensures
        forall|post: Storage<T, K>, v: (T, Epoch)|
            #![trigger post@, pre@.insert(i, v)]
            post.map@ == pre.map@.update(i as int, Some(v)) ==> post@ == pre@.insert(i, v),
        forall|post: Storage<T, K>|
            #![trigger post@]
            post.map@ == pre.map@.update(i as int, None) ==> post@ == pre@.remove(i),
{
    assert forall|post: Storage<T, K>, v: (T, Epoch)|
        #![trigger post@, pre@.insert(i, v)]
        post.map@ == pre.map@.update(i as int, Some(v)) implies post@ == pre@.insert(i, v) by {
        assert(post@ =~= pre@.insert(i, v));
    }
    assert forall|post: Storage<T, K>|
        #![trigger post@]
        post.map@ == pre.map@.update(i as int, None) implies post@ == pre@.remove(i) by {
        assert(post@ =~= pre@.remove(i));
    }
}

impl<T, K> Storage<T, K> {
    /// `id` names the entry stored at its index: one is there, and it was
    /// stored under `id`'s epoch.
    pub open spec fn has(&self, id: Id<K>) -> bool {
        &&& self@.contains_key(id.index)
        &&& self@[id.index].1 == id.epoch
    }

    /// An empty storage.
    pub fn new() -> (r: Self)
        ensures
            r@ == Map::<Index, (T, Epoch)>::empty(),
    {
        let r = Storage { map: Vec::new(), kind: core::marker::PhantomData };
        assert(r@ =~= Map::<Index, (T, Epoch)>::empty());
        r
    }

    /// Whether an entry is stored at `index`, whatever its epoch.
    pub fn is_occupied(&self, index: Index) -> (r: bool)
        ensures
            r == self@.contains_key(index),
    {
        let i = index as usize;
        i < self.map.len() && self.map[i].is_some()
    }

    /// Whether `id` names a stored entry at its own epoch.
    pub fn contains(&self, id: Id<K>) -> (r: bool)
        ensures
            r == self.has(id),
    {
        let i = id.index as usize;
        if i < self.map.len() {
            match &self.map[i] {
                Some(entry) => entry.1 == id.epoch,
                None => false,
            }
        } else {
            false
        }
    }

    /// The payload that `id` names.
    pub fn get(&self, id: Id<K>) -> (r: &T)
        requires
            self.has(id),
        ensures
            *r == self@[id.index].0,
    {
        match &self.map[id.index as usize] {
            Some(entry) => &entry.0,
            None => {
                assert(false);
                unreached()
            },
        }
    }

    /// Write access to the payload that `id` names; the entry keeps its epoch.
    pub fn get_mut(&mut self, id: Id<K>) -> (r: &mut T)
        requires
            old(self).has(id),
        ensures
            *r == old(self)@[id.index].0,
            final(self)@ == old(self)@.insert(id.index, (*final(r), id.epoch)),
    {
        proof {
            lemma_view_update(*self, id.index);
        }
        let slot = vstd::std_specs::vec::vec_index_mut(&mut self.map, id.index as usize);
        match slot {
            Some(entry) => {
                &mut entry.0
            },
            None => {
                assert(false);
                unreached()
            },
        }
    }

    /// Stores `value` at `index` under `epoch`; no entry may be there yet.
    pub fn insert(&mut self, index: Index, value: T, epoch: Epoch)
        requires
            !old(self)@.contains_key(index),
        ensures
            final(self)@ == old(self)@.insert(index, (value, epoch)),
    {
        let i = index as usize;
        while self.map.len() <= i
            invariant
                self@ == old(self)@,
                i == index as usize,
            decreases i + 1 - self.map@.len(),
        {
            let ghost before = self@;
            self.map.push(None);
            assert(self@ =~= before);
        }
        proof {
            lemma_view_update(*self, index);
        }
        self.map.set(i, Some((value, epoch)));
    }

    /// Takes out the entry at `index`, which must be there, with its epoch.
    pub fn remove(&mut self, index: Index) -> (r: (T, Epoch))
        requires
            old(self)@.contains_key(index),
        ensures
            r == old(self)@[index],
            final(self)@ == old(self)@.remove(index),
    {
        proof {
            lemma_view_update(*self, index);
        }
        let slot = vstd::std_specs::vec::vec_index_mut(&mut self.map, index as usize);
        match slot.take() {
            Some(entry) => entry,
            None => {
                assert(false);
                unreached()
            },
        }
    }
}

impl<T, K> Default for Storage<T, K> {
    fn default() -> (r: Self)
        ensures
            r@ == Map::<Index, (T, Epoch)>::empty(),
    {
        Storage::new()
    }
}

/// Storing `value` under `id`, looking it up and taking it out again: the
/// lookup gives `value`, taking out gives `value` with `id`'s epoch, and
/// afterwards `id` names nothing.
pub proof fn lemma_round_trip<T, K>(
    s0: Storage<T, K>,
    id: Id<K>,
    value: T,
    s1: Storage<T, K>,
    s2: Storage<T, K>,
)
    requires
        !s0@.contains_key(id.index),
        s1@ == s0@.insert(id.index, (value, id.epoch)),
        s2@ == s1@.remove(id.index),
    ensures
        s1.has(id),
        s1@[id.index].0 == value,
        s1@[id.index] == (value, id.epoch),
        !s2.has(id),
        s2@ == s0@,
{
    assert(s2@ =~= s0@);
}

/// Once the entry of `id` is taken out, `id` names nothing, also after its
/// index is filled again under another epoch.
pub proof fn lemma_stale_handle_rejected<T, K>(
    s0: Storage<T, K>,
    id: Id<K>,
    s1: Storage<T, K>,
    value: T,
    epoch: Epoch,
    s2: Storage<T, K>,
)
    requires
        s0.has(id),
        s1@ == s0@.remove(id.index),
        s2@ == s1@.insert(id.index, (value, epoch)),
        epoch != id.epoch,
    ensures
        !s1.has(id),
        !s2.has(id),
{
}

} // verus!
