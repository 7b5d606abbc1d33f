//! The store: live ids, the slot each one owns, and the typed tables that
//! hold the values.
use crate::slots::{slot_entries, slots_insert, slots_new, slots_remove, Slots};
use std::collections::HashMap;
use std::collections::HashSet;
use vstd::prelude::*;

verus! {

broadcast use vstd::std_specs::hash::group_hash_axioms;

/// A position in the traversal, stable from one traversal to the next as
/// long as the same call-site path is taken.
#[derive(Clone, Copy, PartialEq, Eq, Hash, Debug, Structural)]
pub struct Id(pub u64);

/// What the store looks like from outside: the cell key of each live id,
/// the ids not yet touched in the current collection epoch, and the next
/// cell key to hand out. Cell keys are numbered from zero and never handed
/// out twice, so a table entry left by a removed id is never taken for a
/// later id's value.
pub struct StoreModel {
    pub keys: Map<u64, u64>,
    pub unseen: Set<u64>,
    pub next: u64,
}

impl StoreModel {
    /// The value that `table` holds for `id`: present when `id` is live and
    /// the table has an entry under its cell key.
    pub open spec fn cell<T>(self, table: Map<u64, T>, id: Id) -> Option<T> {
        if self.keys.contains_key(id.0) && table.contains_key(self.keys[id.0]) {
            Some(table[self.keys[id.0]])
        } else {
            None
        }
    }

    /// The store after an access at `id`: `id` is no longer unseen.
    pub open spec fn touched(self, id: Id) -> StoreModel {
        StoreModel { keys: self.keys, unseen: self.unseen.remove(id.0), next: self.next }
    }

    /// The store at the start of an epoch: every live id is unseen.
    pub open spec fn reset(self) -> StoreModel {
        StoreModel { keys: self.keys, unseen: self.keys.dom(), next: self.next }
    }

    /// The store after a purge: the unseen ids are gone, and the epoch is over.
    pub open spec fn purged(self) -> StoreModel {
        StoreModel {
            keys: self.keys.remove_keys(self.unseen),
            unseen: Set::empty(),
            next: self.next,
        }
    }

    /// Every live id's cell key was handed out already, and no two live ids
    /// share one.
    pub open spec fn valid(self) -> bool {
        &&& forall|a: u64| #[trigger] self.keys.contains_key(a) ==> self.keys[a] < self.next
        &&& forall|a: u64, b: u64|
            #![trigger self.keys[a], self.keys[b]]
            self.keys.contains_key(a) && self.keys.contains_key(b) && a != b ==> self.keys[a]
                != self.keys[b]
    }

    /// Every entry of `table` sits under a cell key this store handed out:
    /// true of a new table, and kept by every write through this store.
    pub open spec fn fits<T>(self, table: Map<u64, T>) -> bool {
        forall|k: u64| #[trigger] table.contains_key(k) ==> k < self.next
    }

    /// A write at `id` can be made: `id` is live, or there is a slot and a
    /// cell key left for it.
    pub open spec fn has_room(self, id: Id) -> bool {
        self.keys.contains_key(id.0) || (self.keys.len() < u32::MAX - 1 && self.next < u64::MAX)
    }
}

/// How a write at `id` changes the store: `id` is touched, and a new id
/// gets the next cell key.
pub open spec fn store_post(pre: StoreModel, id: Id, post: StoreModel) -> bool {
    &&& post.unseen == pre.unseen.remove(id.0)
    &&& pre.keys.contains_key(id.0) ==> post.keys == pre.keys && post.next == pre.next
    &&& !pre.keys.contains_key(id.0) ==> post.keys == pre.keys.insert(id.0, pre.next)
        && post.next == pre.next + 1
}

/// How a write of `value` at `id` changes the store and the table of the
/// value's type: as `store_post` says, and the table holds `value` under
/// the cell key of `id`.
pub open spec fn set_post<T>(
    pre: StoreModel,
    pre_table: Map<u64, T>,
    id: Id,
    value: T,
    post: StoreModel,
    post_table: Map<u64, T>,
) -> bool {
    &&& store_post(pre, id, post)
    &&& post_table == pre_table.insert(post.keys[id.0], value)
}

/// How a lazy initialisation at `id` changes the store and the table, where
/// `stored` is what the cell holds afterwards: a present cell keeps its
/// value and only `id` is touched; an absent one is written as by a set.
pub open spec fn init_post<T>(
    pre: StoreModel,
    pre_table: Map<u64, T>,
    id: Id,
    stored: T,
    post: StoreModel,
    post_table: Map<u64, T>,
) -> bool {
    match pre.cell(pre_table, id) {
        Some(v) => stored == v && post == pre.touched(id) && post_table == pre_table,
        None => set_post(pre, pre_table, id, stored, post, post_table),
    }
}

/// The failures of the store's operations.
#[derive(Clone, Copy, PartialEq, Eq, Debug, Structural)]
pub enum StoreError {
    /// No cell of the requested type lives at the id: it was never set, or
    /// its id was removed or purged.
    NotFound,
}

/// A homogeneous table: the values of one type, by slot key.
pub struct Table<T> {
    cells: HashMap<u64, T>,
}

impl<T> View for Table<T> {
    type V = Map<u64, T>;

    closed spec fn view(&self) -> Map<u64, T> {
        self.cells@
    }
}

impl<T> Table<T> {
    /// An empty table.
    pub fn new() -> (r: Table<T>)
        ensures
            r@ == Map::<u64, T>::empty(),
    {
        Table { cells: HashMap::new() }
    }

    /// The number of entries in the table.
    pub fn len(&self) -> (r: usize)
        ensures
            r == self@.len(),
    {
        self.cells.len()
    }

    fn entry(&self, key: u64) -> (r: Option<&T>)
        ensures
            r == (if self@.contains_key(key) {
                Some(&self@[key])
            } else {
                None
            }),
    {
        self.cells.get(&key)
    }

    fn key_list(&self) -> (r: Vec<u64>)
        ensures
            forall|i: int| 0 <= i < r.len() ==> self@.contains_key(#[trigger] r@[i]),
            forall|k: u64| self@.contains_key(k) ==> r@.contains(k),
    {
        let mut r: Vec<u64> = Vec::new();
        let ghost dom = self.cells@.dom();
        for k in it: self.cells.keys()
            invariant
                it.seq().unref().to_set() == dom,
                forall|i: int| 0 <= i < r.len() ==> dom.contains(#[trigger] r@[i]),
                forall|x: u64|
                    dom.contains(x) ==> r@.contains(x) || exists|i: int|
                        it.index() <= i < it.seq().len() && *it.seq()[i] == x,
        {
            let ghost before = r@;
            r.push(*k);
            proof {
                assert forall|x: u64| before.contains(x) implies r@.contains(x) by {
                    let j = choose|j: int| 0 <= j < before.len() && before[j] == x;
                    assert(r@[j] == x);
                }
                assert(r@[r.len() - 1] == *k);
            }
        }
        r
    }

    fn put(&mut self, key: u64, value: T)
        ensures
            final(self)@ == old(self)@.insert(key, value),
    {
        self.cells.insert(key, value);
    }

    fn take(&mut self, key: u64) -> (r: Option<T>)
        ensures
            final(self)@ == old(self)@.remove(key),
            r == (if old(self)@.contains_key(key) {
                Some(old(self)@[key])
            } else {
                None
            }),
    {
        self.cells.remove(&key)
    }
}

/// The store of state cells. Each live id owns one slot of the slot map
/// and one cell key; the value of each type at that id sits in that type's
/// table under the cell key.
///
/// Removing or purging an id frees its slot and leaves every table as it
/// is: what a table held for that id stays there, out of reach, since its
/// cell key is never handed out again.
pub struct Store {
    id_to_key_map: HashMap<u64, u64>,
    id_to_slot_map: HashMap<u64, u64>,
    primary_slotmap: Slots,
    unseen_ids: HashSet<u64>,
    next_key: u64,
}

impl View for Store {
    type V = StoreModel;

    closed spec fn view(&self) -> StoreModel {
        StoreModel { keys: self.id_to_key_map@, unseen: self.unseen_ids@, next: self.next_key }
    }
}

impl Store {
    /// The live ids own their slots one to one, and their cell keys are
    /// distinct and already handed out.
    pub closed spec fn wf(&self) -> bool {
        let keys = self.id_to_key_map@;
        let slot_of = self.id_to_slot_map@;
        let slots = slot_entries(self.primary_slotmap);
        &&& forall|a: u64| #[trigger] keys.contains_key(a) ==> keys[a] < self.next_key
        &&& forall|a: u64, b: u64|
            #![trigger keys[a], keys[b]]
            keys.contains_key(a) && keys.contains_key(b) && a != b ==> keys[a] != keys[b]
        &&& self.id_to_key_map@.dom() == slot_of.dom()
        &&& slots.dom().finite()
        &&& slots.len() == slot_of.len()
        &&& forall|id: u64|
            #[trigger] slot_of.contains_key(id) ==> slots.contains_key(slot_of[id])
                && slots[slot_of[id]] == id
        &&& forall|k: u64|
            #[trigger] slots.contains_key(k) ==> slot_of.contains_key(slots[k]) && slot_of[slots[k]]
                == k
    }

    /// A well-formed store has a valid model.
    pub proof fn lemma_wf_valid(&self)
        requires
            self.wf(),
        ensures
            self@.valid(),
    {
    }

    /// An empty store.
    pub fn new() -> (r: Store)
        ensures
            r.wf(),
            r@.keys == Map::<u64, u64>::empty(),
            r@.unseen == Set::<u64>::empty(),
            r@.next == 0,
    {
        let r = Store {
            id_to_key_map: HashMap::new(),
            id_to_slot_map: HashMap::new(),
            primary_slotmap: slots_new(),
            unseen_ids: HashSet::new(),
            next_key: 0,
        };
        assert(r.id_to_key_map@.dom() =~= r.id_to_slot_map@.dom());
        r
    }

    /// Reads the value of `table`'s type at `id`, and touches `id`.
    pub fn get_state_with_topo_id<'a, T>(&mut self, table: &'a Table<T>, current_id: Id) -> (r:
        Option<&'a T>)
        requires
            old(self).wf(),
        ensures
            final(self).wf(),
            final(self)@ == old(self)@.touched(current_id),
            match r {
                Some(v) => old(self)@.cell(table@, current_id) == Some(*v),
                None => old(self)@.cell(table@, current_id) is None,
            },
    {
        self.unseen_ids.remove(&current_id.0);
        match self.id_to_key_map.get(&current_id.0) {
            Some(key) => table.entry(*key),
            None => None,
        }
    }

    /// Writes `data` at `current_id` in `table`, and touches `current_id`.
    /// A new id first gets a slot and a cell key of its own.
    pub fn set_state_with_topo_id<T>(&mut self, table: &mut Table<T>, data: T, current_id: Id)
        requires
            old(self).wf(),
            old(self)@.has_room(current_id),
        ensures
            final(self).wf(),
            set_post(old(self)@, old(table)@, current_id, data, final(self)@, final(table)@),
    {
        self.unseen_ids.remove(&current_id.0);
        let key: u64 = match self.id_to_key_map.get(&current_id.0) {
            Some(key) => *key,
            None => {
                let key = self.next_key;
                let slot = slots_insert(&mut self.primary_slotmap, current_id.0);
                self.id_to_slot_map.insert(current_id.0, slot);
                self.id_to_key_map.insert(current_id.0, key);
                self.next_key = key + 1;
                assert(self.id_to_key_map@.dom() =~= self.id_to_slot_map@.dom());
                key
            },
        };
        table.put(key, data);
    }

    /// Forgets `id`: its slot is freed. The typed tables keep whatever
    /// they hold under its cell key, which no later id gets.
    pub fn remove_topo_id(&mut self, id: Id)
        requires
            old(self).wf(),
        ensures
            final(self).wf(),
            final(self)@.keys == old(self)@.keys.remove(id.0),
            final(self)@.unseen == old(self)@.unseen,
            final(self)@.next == old(self)@.next,
    {
        if self.id_to_key_map.remove(&id.0).is_some() {
            match self.id_to_slot_map.remove(&id.0) {
                Some(slot) => {
                    slots_remove(&mut self.primary_slotmap, slot);
                },
                None => {},
            }
        }
        assert(self.id_to_key_map@.dom() =~= self.id_to_slot_map@.dom());
    }

    /// Starts a collection epoch: every live id becomes unseen.
    pub fn reset_unseen_id_list(&mut self)
        requires
            old(self).wf(),
        ensures
            final(self).wf(),
            final(self)@ == old(self)@.reset(),
    {
        let mut unseen: HashSet<u64> = HashSet::new();
        let ghost live = self.id_to_key_map@.dom();
        for id in it: self.id_to_key_map.keys()
            invariant
                it.seq().unref().to_set() == live,
                forall|x: u64| unseen@.contains(x) ==> live.contains(x),
                forall|x: u64|
                    live.contains(x) ==> unseen@.contains(x) || exists|i: int|
                        it.index() <= i < it.seq().len() && *it.seq()[i] == x,
        {
            unseen.insert(*id);
        }
        assert(unseen@ =~= live);
        self.unseen_ids = unseen;
    }

    /// Ends a collection epoch: every id that is still unseen is removed,
    /// and no id is unseen any more.
    pub fn purge_unseen_ids(&mut self)
        requires
            old(self).wf(),
        ensures
            final(self).wf(),
            final(self)@ == old(self)@.purged(),
    {
        let mut doomed: Vec<u64> = Vec::new();
        let ghost unseen = self.unseen_ids@;
        for id in it: self.unseen_ids.iter()
            invariant
                it.seq().unref().to_set() == unseen,
                forall|i: int| 0 <= i < doomed.len() ==> unseen.contains(#[trigger] doomed@[i]),
                forall|x: u64|
                    unseen.contains(x) ==> doomed@.contains(x) || exists|i: int|
                        it.index() <= i < it.seq().len() && *it.seq()[i] == x,
        {
            let ghost before = doomed@;
            doomed.push(*id);
            proof {
                assert forall|x: u64| before.contains(x) implies doomed@.contains(x) by {
                    let j = choose|j: int| 0 <= j < before.len() && before[j] == x;
                    assert(doomed@[j] == x);
                }
                assert(doomed@[doomed.len() - 1] == *id);
            }
        }
        let ghost keys = self.id_to_key_map@;
        let mut n: usize = 0;
        while n < doomed.len()
            invariant
                self.wf(),
                n <= doomed.len(),
                self.unseen_ids@ == unseen,
                forall|x: u64|
                    #[trigger] self.id_to_key_map@.contains_key(x) <==> keys.contains_key(x)
                        && !(exists|j: int| 0 <= j < n && doomed@[j] == x),
                forall|x: u64|
                    #[trigger] self.id_to_key_map@.contains_key(x) ==> self.id_to_key_map@[x]
                        == keys[x],
                self.next_key == old(self).next_key,
            decreases doomed.len() - n,
        {
            self.remove_topo_id(Id(doomed[n]));
            n = n + 1;
        }
        self.unseen_ids.clear();
        assert(self@.keys =~= keys.remove_keys(unseen));
    }

    /// Purges the unseen ids, then starts a new epoch.
    pub fn purge_and_reset_unseen_ids(&mut self)
        requires
            old(self).wf(),
        ensures
            final(self).wf(),
            final(self)@ == old(self)@.purged().reset(),
    {
        self.purge_unseen_ids();
        self.reset_unseen_id_list();
    }

    /// Returns the value of `table`'s type at `current_id`; where there is
    /// none, `factory` makes it once and it is stored. Touches `current_id`.
    ///
    /// While `factory` runs, the store and the table stay borrowed by this
    /// call, so a nested initialisation of the same cell cannot be written:
    /// the compiler refuses it.
    pub fn get_or_init<T: Clone, F: FnOnce() -> T>(
        &mut self,
        table: &mut Table<T>,
        current_id: Id,
        factory: F,
    ) -> (r: T)
        requires
            old(self).wf(),
            old(self)@.cell(old(table)@, current_id) is None ==> factory.requires(()),
            old(self)@.has_room(current_id),
        ensures
            final(self).wf(),
            final(self)@.cell(final(table)@, current_id) is Some,
            init_post(
                old(self)@,
                old(table)@,
                current_id,
                final(self)@.cell(final(table)@, current_id)->Some_0,
                final(self)@,
                final(table)@,
            ),
            old(self)@.cell(old(table)@, current_id) is None ==> factory.ensures(
                (),
                final(self)@.cell(final(table)@, current_id)->Some_0,
            ),
            cloned(final(self)@.cell(final(table)@, current_id)->Some_0, r),
    {
        match self.get_state_with_topo_id(table, current_id) {
            Some(v) => v.clone(),
            None => {
                let data = factory();
                let r = data.clone();
                self.set_state_with_topo_id(table, data, current_id);
                assert(self@.unseen =~= old(self)@.unseen.remove(current_id.0));
                r
            },
        }
    }

    /// Replaces the value of `table`'s type at `current_id` by what `func`
    /// makes of it, and touches `current_id`. Fails with `NotFound`, and
    /// changes no table, where there is no such value.
    pub fn update_state_with_topo_id<T, F: FnOnce(T) -> T>(
        &mut self,
        table: &mut Table<T>,
        current_id: Id,
        func: F,
    ) -> (r: Result<(), StoreError>)
        requires
            old(self).wf(),
            old(self)@.cell(old(table)@, current_id) is Some ==> func.requires(
                (old(self)@.cell(old(table)@, current_id)->Some_0,),
            ),
        ensures
            final(self).wf(),
            final(self)@ == old(self)@.touched(current_id),
            r is Ok <==> old(self)@.cell(old(table)@, current_id) is Some,
            r is Err ==> (r matches Err(StoreError::NotFound)) && final(table)@ == old(table)@,
            r is Ok ==> {
                &&& final(self)@.cell(final(table)@, current_id) is Some
                &&& func.ensures(
                    (old(self)@.cell(old(table)@, current_id)->Some_0,),
                    final(self)@.cell(final(table)@, current_id)->Some_0,
                )
                &&& final(table)@ == old(table)@.insert(
                    old(self)@.keys[current_id.0],
                    final(self)@.cell(final(table)@, current_id)->Some_0,
                )
            },
    {
        self.unseen_ids.remove(&current_id.0);
        let key: u64 = match self.id_to_key_map.get(&current_id.0) {
            Some(key) => *key,
            None => {
                return Err(StoreError::NotFound);
            },
        };
        match table.take(key) {
            Some(v) => {
                let w = func(v);
                table.put(key, w);
                Ok(())
            },
            None => Err(StoreError::NotFound),
        }
    }

    /// Like `update_state_with_topo_id`, where `func` also hands back a
    /// result, which is returned.
    pub fn modify_state_with_topo_id<T, R, F: FnOnce(T) -> (T, R)>(
        &mut self,
        table: &mut Table<T>,
        current_id: Id,
        func: F,
    ) -> (r: Result<R, StoreError>)
        requires
            old(self).wf(),
            old(self)@.cell(old(table)@, current_id) is Some ==> func.requires(
                (old(self)@.cell(old(table)@, current_id)->Some_0,),
            ),
        ensures
            final(self).wf(),
            final(self)@ == old(self)@.touched(current_id),
            r is Ok <==> old(self)@.cell(old(table)@, current_id) is Some,
            r is Err ==> (r matches Err(StoreError::NotFound)) && final(table)@ == old(table)@,
            r is Ok ==> {
                &&& final(self)@.cell(final(table)@, current_id) is Some
                &&& func.ensures(
                    (old(self)@.cell(old(table)@, current_id)->Some_0,),
                    (final(self)@.cell(final(table)@, current_id)->Some_0, r->Ok_0),
                )
                &&& final(table)@ == old(table)@.insert(
                    old(self)@.keys[current_id.0],
                    final(self)@.cell(final(table)@, current_id)->Some_0,
                )
            },
    {
        self.unseen_ids.remove(&current_id.0);
        let key: u64 = match self.id_to_key_map.get(&current_id.0) {
            Some(key) => *key,
            None => {
                return Err(StoreError::NotFound);
            },
        };
        match table.take(key) {
            Some(v) => {
                let (w, out) = func(v);
                table.put(key, w);
                Ok(out)
            },
            None => Err(StoreError::NotFound),
        }
    }

    /// Whether `id` is live.
    pub fn contains_topo_id(&self, id: Id) -> (r: bool)
        ensures
            r == self@.keys.contains_key(id.0),
    {
        self.id_to_key_map.contains_key(&id.0)
    }

    /// Whether a write at `id` can be made.
    pub fn has_room_for(&self, id: Id) -> (r: bool)
        ensures
            r == self@.has_room(id),
    {
        self.id_to_key_map.contains_key(&id.0) || (self.id_to_key_map.len() < u32::MAX as usize - 1
            && self.next_key < u64::MAX)
    }

    /// Drops from `table` every entry that no live id's cell key names:
    /// what removed and purged ids left behind. No cell changes.
    pub fn sweep_table<T>(&self, table: &mut Table<T>)
        requires
            self.wf(),
        ensures
            final(table)@ == old(table)@.restrict(self@.keys.values()),
            forall|id: Id| #[trigger]
                self@.cell(final(table)@, id) == self@.cell(old(table)@, id),
    {
        let mut live: HashSet<u64> = HashSet::new();
        let ghost values = self.id_to_key_map@.values();
        for k in it: self.id_to_key_map.values()
            invariant
                it.seq().unref().to_set() == values,
                forall|x: u64| live@.contains(x) ==> values.contains(x),
                forall|x: u64|
                    values.contains(x) ==> live@.contains(x) || exists|i: int|
                        it.index() <= i < it.seq().len() && *it.seq()[i] == x,
        {
            live.insert(*k);
        }
        assert(live@ =~= values);
        let keys = table.key_list();
        let ghost start = table@;
        let mut n: usize = 0;
        while n < keys.len()
            invariant
                live@ == values,
                n <= keys.len(),
                forall|i: int| 0 <= i < keys.len() ==> start.contains_key(#[trigger] keys@[i]),
                forall|k: u64| start.contains_key(k) ==> keys@.contains(k),
                forall|k: u64|
                    #[trigger] table@.contains_key(k) <==> start.contains_key(k) && (values.contains(
                        k,
                    ) || !(exists|j: int| 0 <= j < n && keys@[j] == k)),
                forall|k: u64| #[trigger] table@.contains_key(k) ==> table@[k] == start[k],
            decreases keys.len() - n,
        {
            let k = keys[n];
            if !live.contains(&k) {
                table.take(k);
            }
            n = n + 1;
        }
        assert forall|k: u64| start.contains_key(k) && !values.contains(k) implies !table@.contains_key(
            k,
        ) by {
            assert(keys@.contains(k));
            let j = choose|j: int| 0 <= j < keys.len() && keys@[j] == k;
            assert(0 <= j < n && keys@[j] == k);
        }
        assert(table@ =~= start.restrict(values));
        assert forall|id: Id| #[trigger]
            self@.cell(table@, id) == self@.cell(start, id) by {
            if self@.keys.contains_key(id.0) {
                assert(values.contains(self@.keys[id.0]));
            }
        }
    }

    /// The number of live ids.
    pub fn len(&self) -> (r: usize)
        ensures
            r == self@.keys.len(),
    {
        self.id_to_key_map.len()
    }
}

} // verus!

verus! {

/// A write keeps the store valid, keeps every table that fitted it
/// fitting, and the written table fits afterwards if it fitted before.
pub proof fn lemma_set_keeps_valid<T>(
    pre: StoreModel,
    pre_table: Map<u64, T>,
    id: Id,
    value: T,
    post: StoreModel,
    post_table: Map<u64, T>,
)
    requires
        pre.valid(),
        set_post(pre, pre_table, id, value, post, post_table),
    ensures
        post.valid(),
        post.next >= pre.next,
        pre.fits(pre_table) ==> post.fits(post_table),
{
    assert forall|a: u64, b: u64|
        post.keys.contains_key(a) && post.keys.contains_key(b) && a != b implies post.keys[a]
        != post.keys[b] by {
        if a != id.0 && b != id.0 {
            assert(pre.keys[a] != pre.keys[b]);
        } else if pre.keys.contains_key(id.0) {
            assert(pre.keys[a] != pre.keys[b]);
        } else if a == id.0 {
            assert(pre.keys[b] < pre.next);
        } else {
            assert(pre.keys[a] < pre.next);
        }
    }
    assert forall|a: u64| #[trigger] post.keys.contains_key(a) implies post.keys[a] < post.next by {
        if a != id.0 || pre.keys.contains_key(id.0) {
            assert(pre.keys[a] < pre.next);
        }
    }
    if pre.fits(pre_table) {
        assert forall|k: u64| #[trigger] post_table.contains_key(k) implies k < post.next by {
            if k != post.keys[id.0] {
                assert(pre_table.contains_key(k));
            }
        }
    }
}

/// Round trip: after a write of `value` at `id`, the cell of that type at
/// `id` holds `value`.
pub proof fn lemma_set_then_get<T>(
    pre: StoreModel,
    pre_table: Map<u64, T>,
    id: Id,
    value: T,
    post: StoreModel,
    post_table: Map<u64, T>,
)
    requires
        set_post(pre, pre_table, id, value, post, post_table),
    ensures
        post.cell(post_table, id) == Some(value),
{
    assert(post.keys.contains_key(id.0));
}

/// A write touches nothing but the one cell: every other id's cell of the
/// written type is as it was, and every cell of any other table that fits
/// the store is as it was. In particular a new id has no value of a type
/// never written there.
pub proof fn lemma_set_leaves_other_cells<T, U>(
    pre: StoreModel,
    pre_table: Map<u64, T>,
    id: Id,
    value: T,
    post: StoreModel,
    post_table: Map<u64, T>,
    other: Map<u64, U>,
    j: Id,
)
    requires
        pre.valid(),
        pre.fits(other),
        set_post(pre, pre_table, id, value, post, post_table),
    ensures
        post.cell(other, j) == pre.cell(other, j),
        j != id ==> post.cell(post_table, j) == pre.cell(pre_table, j),
        post.fits(other),
{
    lemma_set_keeps_valid(pre, pre_table, id, value, post, post_table);
    if !pre.keys.contains_key(id.0) {
        assert(!other.contains_key(pre.next));
    }
    if j != id && pre.keys.contains_key(j.0) {
        assert(post.keys[j.0] == pre.keys[j.0]);
        assert(post.keys[j.0] != post.keys[id.0]);
    }
}

/// A lazy initialisation touches nothing but its own cell, as a write does.
pub proof fn lemma_init_leaves_other_cells<T, U>(
    pre: StoreModel,
    pre_table: Map<u64, T>,
    id: Id,
    stored: T,
    post: StoreModel,
    post_table: Map<u64, T>,
    other: Map<u64, U>,
    j: Id,
)
    requires
        pre.valid(),
        pre.fits(other),
        init_post(pre, pre_table, id, stored, post, post_table),
    ensures
        post.cell(other, j) == pre.cell(other, j),
        j != id ==> post.cell(post_table, j) == pre.cell(pre_table, j),
        post.fits(other),
{
    if pre.cell(pre_table, id) is None {
        lemma_set_leaves_other_cells(pre, pre_table, id, stored, post, post_table, other, j);
    }
}

/// Lazy initialisation is idempotent: a second one at the same id, with no
/// write in between, finds the cell present (so its factory is not needed),
/// yields the value the first one stored, and changes neither the table nor
/// any cell key.
pub proof fn lemma_init_idempotent<T>(
    s0: StoreModel,
    t0: Map<u64, T>,
    id: Id,
    first: T,
    s1: StoreModel,
    t1: Map<u64, T>,
    second: T,
    s2: StoreModel,
    t2: Map<u64, T>,
)
    requires
        init_post(s0, t0, id, first, s1, t1),
        init_post(s1, t1, id, second, s2, t2),
    ensures
        s1.cell(t1, id) == Some(first),
        second == first,
        t2 == t1,
        s2.keys == s1.keys,
{
    if s0.cell(t0, id) is None {
        lemma_set_then_get(s0, t0, id, first, s1, t1);
    }
}

/// Collection reclaims only what went unseen: start an epoch, touch `a` and
/// `b`, purge; the cells at `a` and `b` are as they were, and any other id
/// `c` that was live has no cell left.
pub proof fn lemma_purge_keeps_touched<T>(
    s0: StoreModel,
    table: Map<u64, T>,
    a: Id,
    b: Id,
    c: Id,
)
    requires
        s0.keys.contains_key(c.0),
        c != a,
        c != b,
    ensures
        s0.reset().touched(a).touched(b).purged().cell(table, a) == s0.cell(table, a),
        s0.reset().touched(a).touched(b).purged().cell(table, b) == s0.cell(table, b),
        s0.reset().touched(a).touched(b).purged().cell(table, c) is None,
{
    let s = s0.reset().touched(a).touched(b);
    assert(s.unseen.contains(c.0));
    assert(!s.unseen.contains(a.0));
    assert(!s.unseen.contains(b.0));
}

/// The same for any set of touched ids: after an epoch in which exactly the
/// ids of `touched` were touched, a purge keeps their cells as they were
/// and leaves every other id without a cell.
pub proof fn lemma_purge_keeps_touched_set<T>(
    s0: StoreModel,
    table: Map<u64, T>,
    touched: Set<u64>,
    j: Id,
)
    ensures
        touched.contains(j.0) ==> (StoreModel {
            keys: s0.keys,
            unseen: s0.reset().unseen.difference(touched),
            next: s0.next,
        }).purged().cell(table, j) == s0.cell(table, j),
        !touched.contains(j.0) ==> (StoreModel {
            keys: s0.keys,
            unseen: s0.reset().unseen.difference(touched),
            next: s0.next,
        }).purged().cell(table, j) is None,
{
}

/// Distinct ids do not alias: writing `v1` at `i1` and then `v2` at `i2`
/// in one table leaves `v1` readable at `i1` and `v2` at `i2`.
pub proof fn lemma_no_aliasing<T>(
    s0: StoreModel,
    t0: Map<u64, T>,
    i1: Id,
    v1: T,
    s1: StoreModel,
    t1: Map<u64, T>,
    i2: Id,
    v2: T,
    s2: StoreModel,
    t2: Map<u64, T>,
)
    requires
        s0.valid(),
        i1 != i2,
        set_post(s0, t0, i1, v1, s1, t1),
        set_post(s1, t1, i2, v2, s2, t2),
    ensures
        s2.cell(t2, i1) == Some(v1),
        s2.cell(t2, i2) == Some(v2),
{
    lemma_set_then_get(s0, t0, i1, v1, s1, t1);
    lemma_set_keeps_valid(s0, t0, i1, v1, s1, t1);
    lemma_set_then_get(s1, t1, i2, v2, s2, t2);
    lemma_set_leaves_other_cells(s1, t1, i2, v2, s2, t2, Map::<u64, T>::empty(), i1);
}

/// The order of two writes at distinct ids does not matter: writing `v1`
/// at `i1` then `v2` at `i2` leaves every cell of the table as writing them
/// the other way round does.
pub proof fn lemma_set_order_irrelevant<T>(
    s0: StoreModel,
    t0: Map<u64, T>,
    i1: Id,
    v1: T,
    i2: Id,
    v2: T,
    sa1: StoreModel,
    ta1: Map<u64, T>,
    sa2: StoreModel,
    ta2: Map<u64, T>,
    sb1: StoreModel,
    tb1: Map<u64, T>,
    sb2: StoreModel,
    tb2: Map<u64, T>,
    j: Id,
)
    requires
        s0.valid(),
        i1 != i2,
        set_post(s0, t0, i1, v1, sa1, ta1),
        set_post(sa1, ta1, i2, v2, sa2, ta2),
        set_post(s0, t0, i2, v2, sb1, tb1),
        set_post(sb1, tb1, i1, v1, sb2, tb2),
    ensures
        sa2.cell(ta2, j) == sb2.cell(tb2, j),
{
    let none = Map::<u64, T>::empty();
    lemma_no_aliasing(s0, t0, i1, v1, sa1, ta1, i2, v2, sa2, ta2);
    lemma_no_aliasing(s0, t0, i2, v2, sb1, tb1, i1, v1, sb2, tb2);
    if j != i1 && j != i2 {
        lemma_set_leaves_other_cells(s0, t0, i1, v1, sa1, ta1, none, j);
        lemma_set_keeps_valid(s0, t0, i1, v1, sa1, ta1);
        lemma_set_leaves_other_cells(sa1, ta1, i2, v2, sa2, ta2, none, j);
        lemma_set_leaves_other_cells(s0, t0, i2, v2, sb1, tb1, none, j);
        lemma_set_keeps_valid(s0, t0, i2, v2, sb1, tb1);
        lemma_set_leaves_other_cells(sb1, tb1, i1, v1, sb2, tb2, none, j);
    }
}

/// Two writes at one id in a row make one write of the store.
pub proof fn lemma_store_post_twice(s0: StoreModel, id: Id, s1: StoreModel, s2: StoreModel)
    requires
        store_post(s0, id, s1),
        store_post(s1, id, s2),
    ensures
        store_post(s0, id, s2),
        s2.keys.contains_key(id.0),
{
    assert(s2.unseen =~= s0.unseen.remove(id.0));
}

/// A lazy initialisation changes the store as a write does, and leaves
/// `id` live.
pub proof fn lemma_init_store_post<T>(
    s0: StoreModel,
    t0: Map<u64, T>,
    id: Id,
    stored: T,
    s1: StoreModel,
    t1: Map<u64, T>,
)
    requires
        init_post(s0, t0, id, stored, s1, t1),
    ensures
        store_post(s0, id, s1),
        s1.keys.contains_key(id.0),
        s1.cell(t1, id) == Some(stored),
{
    if s0.cell(t0, id) is None {
        lemma_set_then_get(s0, t0, id, stored, s1, t1);
    }
}

/// A lazy initialisation followed by a write at the same id is that write.
pub proof fn lemma_init_then_set<T>(
    s0: StoreModel,
    t0: Map<u64, T>,
    id: Id,
    stored: T,
    s1: StoreModel,
    t1: Map<u64, T>,
    value: T,
    s2: StoreModel,
    t2: Map<u64, T>,
)
    requires
        init_post(s0, t0, id, stored, s1, t1),
        set_post(s1, t1, id, value, s2, t2),
    ensures
        set_post(s0, t0, id, value, s2, t2),
{
    lemma_init_store_post(s0, t0, id, stored, s1, t1);
    lemma_store_post_twice(s0, id, s1, s2);
    assert(t2 =~= t0.insert(s2.keys[id.0], value));
}

/// Purging twice in a row leaves the store as purging once does.
pub proof fn lemma_purge_idempotent(s: StoreModel)
    ensures
        s.purged().purged() == s.purged(),
{
    assert(s.purged().purged().keys =~= s.purged().keys);
    assert(s.purged().purged().unseen =~= s.purged().unseen);
}

} // verus!
