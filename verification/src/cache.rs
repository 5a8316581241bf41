//! The interning cache: one permanent cell for each distinct pair that was
//! ever asked for, found again through a hash map over the pairs' buffers.
use crate::arena::{lemma_place_unique, place_of, with_item};
use crate::static_id::{IdCoreNxM, IdEntryNxM, StaticIdNxM};
use rustc_hash::FxHashMap;
use vstd::prelude::*;

verus! {

/// `rustc_hash::FxBuildHasher`, the hasher of the cache's map. Nothing is
/// stated of it; the contracts of `lookup_get` and `lookup_insert` rest on
/// its hashers giving equal digests for equal keys, which its source shows:
/// every hasher starts from zero and mixes in nothing but what is written.
#[verifier::external_type_specification]
#[verifier::external_body]
pub struct ExFxBuildHasher(rustc_hash::FxBuildHasher);

/// `HashMap::get` on a map with the Fx hasher, keyed by a pair of byte
/// arrays: the slot that the map holds for `key`, or nothing where the map
/// has no such key. Arrays of bytes are equal, and hash alike, exactly when
/// they hold the same bytes, so the map's keys are those of its view.
/// What vstd states of `get` holds only of key types and hashers that it
/// knows to obey its model; of this key type and this hasher it knows
/// nothing.
#[verifier::external_body]
fn lookup_get<const N: usize, const M: usize>(
    lookup: &FxHashMap<([u8; N], [u8; M]), usize>,
    key: &([u8; N], [u8; M]),
) -> (slot: Option<usize>)
    ensures
        slot == (if lookup@.contains_key(*key) {
            Some(lookup@[*key])
        } else {
            None::<usize>
        }),
{
    lookup.get(key).copied()
}

/// `HashMap::insert` on the same kind of map: afterwards the map holds
/// `slot` for `key`, and for every other key what it held before.
#[verifier::external_body]
fn lookup_insert<const N: usize, const M: usize>(
    lookup: &mut FxHashMap<([u8; N], [u8; M]), usize>,
    key: ([u8; N], [u8; M]),
    slot: usize,
)
    ensures
        final(lookup)@ == old(lookup)@.insert(key, slot),
{
    lookup.insert(key, slot);
}

/// `Box::leak`: a reference, good for the rest of the process, to the value
/// that was in the box.
#[verifier::external_body]
fn leak_entry<const N: usize, const M: usize>(entry: Box<IdEntryNxM<N, M>>) -> (cell:
    &'static IdEntryNxM<N, M>)
    ensures
        *cell == *entry,
{
    Box::leak(entry)
}

/// A cache of interned pairs with code capacity `N` and venue capacity `M`.
/// It only grows: a cell, once made, stays where it is.
pub struct IdCacheNxM<const N: usize, const M: usize> {
    cells: Vec<&'static IdEntryNxM<N, M>>,
    lookup: FxHashMap<([u8; N], [u8; M]), usize>,
}

impl<const N: usize, const M: usize> View for IdCacheNxM<N, M> {
    type V = Seq<IdCoreNxM<N, M>>;

    /// The interned pairs, in the order in which they were first asked for.
    closed spec fn view(&self) -> Seq<IdCoreNxM<N, M>> {
        Seq::new(self.cells@.len(), |i: int| self.cells@[i].id)
    }
}

impl<const N: usize, const M: usize> IdCacheNxM<N, M> {
    /// Every cell knows its place and holds a well-formed pair, and the map
    /// leads from each pair's buffers to its cell and to nothing else.
    pub closed spec fn wf(&self) -> bool {
        &&& N + M <= usize::MAX
        &&& forall|i: int|
            0 <= i < self.cells@.len() ==> (#[trigger] self.cells@[i]).slot == i
                && self.cells@[i].id.wf()
        &&& forall|i: int|
            0 <= i < self.cells@.len() ==> self.lookup@.contains_key(
                (#[trigger] self.cells@[i]).id.key(),
            ) && self.lookup@[self.cells@[i].id.key()] == i
        &&& forall|k: ([u8; N], [u8; M])| #[trigger]
            self.lookup@.contains_key(k) ==> self.lookup@[k] < self.cells@.len()
                && self.cells@[self.lookup@[k] as int].id.key() == k
    }

    /// In a well-formed cache no pair has two cells, and every pair is well
    /// formed.
    pub proof fn lemma_wf(&self)
        requires
            self.wf(),
        ensures
            self@.no_duplicates(),
            forall|i: int| 0 <= i < self@.len() ==> (#[trigger] self@[i]).wf(),
            N + M <= usize::MAX,
    {
        assert forall|i: int, j: int|
            0 <= i < self@.len() && 0 <= j < self@.len() && i != j implies self@[i] != self@[j] by {
            let a = self.cells@[i];
            let b = self.cells@[j];
            assert(self.lookup@[a.id.key()] == i);
            assert(self.lookup@[b.id.key()] == j);
        }
    }

    /// A cache without cells.
    pub fn new() -> (cache: Self)
        requires
            N + M <= usize::MAX,
        ensures
            cache.wf(),
            cache@ == Seq::<IdCoreNxM<N, M>>::empty(),
    {
        let cache = IdCacheNxM { cells: Vec::new(), lookup: FxHashMap::default() };
        assert(cache@ =~= Seq::<IdCoreNxM<N, M>>::empty());
        cache
    }

    /// The number of cells: of distinct pairs that were asked for.
    pub fn len(&self) -> (n: usize)
        ensures
            n == self@.len(),
    {
        self.cells.len()
    }

    /// The handle for `id`: to the cell that the cache already keeps for an
    /// equal pair, or to a new cell, made for good, where it keeps none.
    pub fn intern(&mut self, id: IdCoreNxM<N, M>) -> (handle: StaticIdNxM<N, M>)
        requires
            old(self).wf(),
        ensures
            final(self).wf(),
            final(self)@ == with_item(old(self)@, id),
            handle.slot() == place_of(old(self)@, id),
            handle.id_core() == id,
    {
        proof {
            use_type_invariant(&id.code);
            use_type_invariant(&id.venue);
            self.lemma_wf();
        }
        let key = (id.code.to_array(), id.venue.to_array());
        match lookup_get(&self.lookup, &key) {
            Some(slot) => {
                let cell = self.cells[slot];
                proof {
                    cell.id.code.lemma_same_buffer(&id.code);
                    cell.id.venue.lemma_same_buffer(&id.venue);
                    assert(self@[slot as int] == id);
                    lemma_place_unique(self@, id, slot as int);
                }
                StaticIdNxM::of_entry(cell)
            },
            None => {
                let slot: usize = self.cells.len();
                proof {
                    if self@.contains(id) {
                        let i = choose|i: int| 0 <= i < self@.len() && self@[i] == id;
                        assert(self.cells@[i].id.key() == key);
                    }
                }
                let cell = leak_entry(Box::new(IdEntryNxM { id, slot }));
                self.cells.push(cell);
                lookup_insert(&mut self.lookup, key, slot);
                proof {
                    assert(final(self)@ =~= old(self)@.push(id));
                    assert forall|i: int|
                        0 <= i < self.cells@.len() implies self.lookup@.contains_key(
                        (#[trigger] self.cells@[i]).id.key(),
                    ) && self.lookup@[self.cells@[i].id.key()] == i by {
                        if i < slot {
                            assert(self.cells@[i] == old(self).cells@[i]);
                            assert(self.cells@[i].id.key() != key);
                        }
                    }
                }
                StaticIdNxM::of_entry(cell)
            },
        }
    }
}

} // verus!
