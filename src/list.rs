//! A list kept in a state cell, with the controls that reorder and edit it.
use crate::access::StateAccess;
use crate::access::use_state;
use crate::store::{init_post, Id, Store, StoreModel, Table};
use vstd::prelude::*;

verus! {

/// The order of `s` after the item at `old_idx` is moved to stand before
/// the item now at `new_idx`: it is taken out first, then put back at
/// `new_idx - 1` when it stood before `new_idx` (the removal shifted that
/// place down by one), or at `new_idx` when it stood after it. Moving an
/// item onto its own index, or indices out of range (`new_idx` past the
/// end, `old_idx` at or past it), leave `s` as it is.
pub open spec fn moved<T>(s: Seq<T>, old_idx: int, new_idx: int) -> Seq<T> {
    if new_idx > s.len() || old_idx >= s.len() || old_idx == new_idx {
        s
    } else if old_idx < new_idx {
        s.remove(old_idx).insert(new_idx - 1, s[old_idx])
    } else {
        s.remove(old_idx).insert(new_idx, s[old_idx])
    }
}

/// A move keeps every item: the result has the same items, as many times
/// each, and the moved item lands at `new_idx - 1` when it came from before
/// `new_idx`, at `new_idx` otherwise.
pub proof fn lemma_moved_keeps_items<T>(s: Seq<T>, old_idx: int, new_idx: int)
    requires
        0 <= old_idx < s.len(),
        0 <= new_idx <= s.len(),
    ensures
        moved(s, old_idx, new_idx).len() == s.len(),
        moved(s, old_idx, new_idx).to_multiset() == s.to_multiset(),
        moved(s, old_idx, new_idx)[if old_idx < new_idx {
            new_idx - 1
        } else {
            new_idx
        }] == s[old_idx],
{
    broadcast use vstd::seq_lib::to_multiset_remove, vstd::seq_lib::to_multiset_insert;
    broadcast use vstd::multiset::group_multiset_axioms;

    if old_idx != new_idx {
        let rest = s.remove(old_idx);
        let at = if old_idx < new_idx { new_idx - 1 } else { new_idx };
        assert(rest.insert(at, s[old_idx]).to_multiset() == rest.to_multiset().insert(s[old_idx]));
        s.to_multiset_ensures();
        assert(s.to_multiset().count(s[old_idx]) > 0);
        assert(s.to_multiset().remove(s[old_idx]).insert(s[old_idx]) =~= s.to_multiset());
    }
}

/// `b` is an item-by-item copy of `a`.
pub open spec fn copies<T: Clone>(a: Seq<T>, b: Seq<T>) -> bool {
    &&& a.len() == b.len()
    &&& forall|i: int| 0 <= i < a.len() ==> cloned(#[trigger] a[i], b[i])
}

/// An ordered list of items.
pub struct List<T> {
    pub items: Vec<T>,
}

impl<T: Clone> Clone for List<T> {
    fn clone(&self) -> (r: List<T>)
        ensures
            copies(self.items@, r.items@),
    {
        List { items: self.items.clone() }
    }
}

impl<T> List<T> {
    /// A list of `items`, in their order.
    pub fn new(items: Vec<T>) -> (r: List<T>)
        ensures
            r.items == items,
    {
        List { items }
    }

    /// The items, in order.
    pub fn items(&self) -> (r: &Vec<T>)
        ensures
            r@ == self.items@,
    {
        &self.items
    }

    /// Moves the item at `old_idx` as `moved` describes.
    pub fn move_item_to_position(&mut self, old_idx: usize, new_idx: usize)
        ensures
            final(self).items@ == moved(old(self).items@, old_idx as int, new_idx as int),
    {
        if new_idx > self.items.len() || old_idx >= self.items.len() || old_idx == new_idx {
            return;
        }
        let old_item = self.items.remove(old_idx);
        if old_idx < new_idx {
            self.items.insert(new_idx - 1, old_item);
        } else {
            self.items.insert(new_idx, old_item);
        }
    }

    /// Moves the item at `old_idx` one place towards the front; the first
    /// item stays where it is.
    pub fn move_item_up(&mut self, old_idx: usize)
        ensures
            final(self).items@ == (if old_idx == 0 {
                old(self).items@
            } else {
                moved(old(self).items@, old_idx as int, old_idx - 1)
            }),
    {
        if old_idx == 0 {
            return;
        }
        self.move_item_to_position(old_idx, old_idx - 1);
    }

    /// Moves the item at `old_idx` one place towards the back: it is put
    /// back before the item that stood two places after it. The last item
    /// stays where it is.
    pub fn move_item_down(&mut self, old_idx: usize)
        ensures
            final(self).items@ == moved(old(self).items@, old_idx as int, old_idx + 2),
    {
        if old_idx >= self.items.len() || self.items.len() - old_idx < 2 {
            return;
        }
        self.move_item_to_position(old_idx, old_idx + 2);
    }

    /// Puts `item` at `idx`, shifting the items from there on back.
    pub fn insert(&mut self, idx: usize, item: T)
        requires
            idx <= old(self).items.len(),
        ensures
            final(self).items@ == old(self).items@.insert(idx as int, item),
    {
        self.items.insert(idx, item);
    }

    /// Takes out and returns the item at `idx`.
    pub fn remove(&mut self, idx: usize) -> (r: T)
        requires
            idx < old(self).items.len(),
        ensures
            r == old(self).items@[idx as int],
            final(self).items@ == old(self).items@.remove(idx as int),
    {
        self.items.remove(idx)
    }

    /// Puts `item` in place of the item at `idx`, which is returned.
    pub fn replace(&mut self, idx: usize, item: T) -> (r: T)
        requires
            idx < old(self).items.len(),
        ensures
            r == old(self).items@[idx as int],
            final(self).items@ == old(self).items@.update(idx as int, item),
    {
        self.items.insert(idx, item);
        let r = self.items.remove(idx + 1);
        assert(self.items@ =~= old(self).items@.update(idx as int, item));
        r
    }

    /// Appends `item`.
    pub fn push(&mut self, item: T)
        ensures
            final(self).items@ == old(self).items@.push(item),
    {
        self.items.push(item);
    }

    /// Removes every item.
    pub fn clear(&mut self)
        ensures
            final(self).items@ == Seq::<T>::empty(),
    {
        self.items.clear();
    }
}


/// The items of the list that `table` holds for `id`.
pub open spec fn list_at<T>(s: StoreModel, table: Map<u64, List<T>>, id: Id) -> Seq<T> {
    s.cell(table, id)->Some_0.items@
}

/// How an edit of the list at `id` changes the store and the table: `id`
/// is touched, its slot now holds a list of `items`, and nothing else
/// changes.
pub open spec fn list_post<T>(
    pre: StoreModel,
    pre_table: Map<u64, List<T>>,
    id: Id,
    items: Seq<T>,
    post: StoreModel,
    post_table: Map<u64, List<T>>,
) -> bool {
    &&& post == pre.touched(id)
    &&& post.cell(post_table, id) is Some
    &&& list_at(post, post_table, id) == items
    &&& post_table == pre_table.insert(pre.keys[id.0], post.cell(post_table, id)->Some_0)
}

/// The controls of a list held in a state cell.
pub struct ListControl<T> {
    pub list_access: StateAccess<List<T>>,
}

impl<T> ListControl<T> {
    /// The controls of the list in the cell that `list_access` names.
    pub fn new(list_access: StateAccess<List<T>>) -> (r: ListControl<T>)
        ensures
            r.list_access.id == list_access.id,
    {
        ListControl { list_access }
    }

    /// The id of the cell that holds the list.
    pub open spec fn id(self) -> Id {
        self.list_access.id
    }

    /// Moves the item at `old_idx` as `moved` describes.
    pub fn move_item_to_position(
        &self,
        store: &mut Store,
        table: &mut Table<List<T>>,
        old_idx: usize,
        new_idx: usize,
    )
        requires
            old(store).wf(),
            old(store)@.cell(old(table)@, self.id()) is Some,
        ensures
            final(store).wf(),
            list_post(
                old(store)@,
                old(table)@,
                self.id(),
                moved(list_at(old(store)@, old(table)@, self.id()), old_idx as int, new_idx as int),
                final(store)@,
                final(table)@,
            ),
    {
        let ghost (from, to) = (old_idx as int, new_idx as int);
        let _ = store.update_state_with_topo_id(
            table,
            self.list_access.id,
            (move |l: List<T>| -> (m: List<T>)
                ensures
                    m.items@ == moved(l.items@, from, to),
                {
                    let mut l = l;
                    l.move_item_to_position(old_idx, new_idx);
                    l
                }),
        );
    }

    /// Moves the item at `old_idx` one place towards the front, as
    /// `List::move_item_up` does.
    pub fn move_item_up(
        &self,
        store: &mut Store,
        table: &mut Table<List<T>>,
        old_idx: usize,
    )
        requires
            old(store).wf(),
            old(store)@.cell(old(table)@, self.id()) is Some,
        ensures
            final(store).wf(),
            list_post(
                old(store)@,
                old(table)@,
                self.id(),
                if old_idx == 0 {
                    list_at(old(store)@, old(table)@, self.id())
                } else {
                    moved(list_at(old(store)@, old(table)@, self.id()), old_idx as int, old_idx - 1)
                },
                final(store)@,
                final(table)@,
            ),
    {
        let _ = store.update_state_with_topo_id(
            table,
            self.list_access.id,
            (move |l: List<T>| -> (m: List<T>)
                ensures
                    m.items@ == (if old_idx == 0 {
                        l.items@
                    } else {
                        moved(l.items@, old_idx as int, old_idx - 1)
                    }),
                {
                    let mut l = l;
                    l.move_item_up(old_idx);
                    l
                }),
        );
    }

    /// Moves the item at `old_idx` one place towards the back, as
    /// `List::move_item_down` does.
    pub fn move_item_down(
        &self,
        store: &mut Store,
        table: &mut Table<List<T>>,
        old_idx: usize,
    )
        requires
            old(store).wf(),
            old(store)@.cell(old(table)@, self.id()) is Some,
        ensures
            final(store).wf(),
            list_post(
                old(store)@,
                old(table)@,
                self.id(),
                moved(list_at(old(store)@, old(table)@, self.id()), old_idx as int, old_idx + 2),
                final(store)@,
                final(table)@,
            ),
    {
        let _ = store.update_state_with_topo_id(
            table,
            self.list_access.id,
            (move |l: List<T>| -> (m: List<T>)
                ensures
                    m.items@ == moved(l.items@, old_idx as int, old_idx + 2),
                {
                    let mut l = l;
                    l.move_item_down(old_idx);
                    l
                }),
        );
    }

    /// Puts `item` at `idx` in the list.
    pub fn insert(
        &self,
        store: &mut Store,
        table: &mut Table<List<T>>,
        idx: usize,
        item: T,
    )
        requires
            old(store).wf(),
            old(store)@.cell(old(table)@, self.id()) is Some,
            idx <= list_at(old(store)@, old(table)@, self.id()).len(),
        ensures
            final(store).wf(),
            list_post(
                old(store)@,
                old(table)@,
                self.id(),
                list_at(old(store)@, old(table)@, self.id()).insert(idx as int, item),
                final(store)@,
                final(table)@,
            ),
    {
        let _ = store.update_state_with_topo_id(
            table,
            self.list_access.id,
            (move |l: List<T>| -> (m: List<T>)
                requires
                    idx <= l.items.len(),
                ensures
                    m.items@ == l.items@.insert(idx as int, item),
                {
                    let mut l = l;
                    l.insert(idx, item);
                    l
                }),
        );
    }

    /// Appends `item` to the list.
    pub fn push(
        &self,
        store: &mut Store,
        table: &mut Table<List<T>>,
        item: T,
    )
        requires
            old(store).wf(),
            old(store)@.cell(old(table)@, self.id()) is Some,
        ensures
            final(store).wf(),
            list_post(
                old(store)@,
                old(table)@,
                self.id(),
                list_at(old(store)@, old(table)@, self.id()).push(item),
                final(store)@,
                final(table)@,
            ),
    {
        let _ = store.update_state_with_topo_id(
            table,
            self.list_access.id,
            (move |l: List<T>| -> (m: List<T>)
                ensures
                    m.items@ == l.items@.push(item),
                {
                    let mut l = l;
                    l.push(item);
                    l
                }),
        );
    }

    /// Empties the list.
    pub fn clear(
        &self,
        store: &mut Store,
        table: &mut Table<List<T>>,
    )
        requires
            old(store).wf(),
            old(store)@.cell(old(table)@, self.id()) is Some,
        ensures
            final(store).wf(),
            list_post(
                old(store)@,
                old(table)@,
                self.id(),
                Seq::empty(),
                final(store)@,
                final(table)@,
            ),
    {
        let _ = store.update_state_with_topo_id(
            table,
            self.list_access.id,
            (move |l: List<T>| -> (m: List<T>)
                ensures
                    m.items@ == Seq::<T>::empty(),
                {
                    let mut l = l;
                    l.clear();
                    l
                }),
        );
    }

    /// Takes out and returns the item at `idx` of the list.
    pub fn remove(
        &self,
        store: &mut Store,
        table: &mut Table<List<T>>,
        idx: usize,
    ) -> (r: T)
        requires
            old(store).wf(),
            old(store)@.cell(old(table)@, self.id()) is Some,
            idx < list_at(old(store)@, old(table)@, self.id()).len(),
        ensures
            final(store).wf(),
            list_post(
                old(store)@,
                old(table)@,
                self.id(),
                list_at(old(store)@, old(table)@, self.id()).remove(idx as int),
                final(store)@,
                final(table)@,
            ),
            r == list_at(old(store)@, old(table)@, self.id())[idx as int],
    {
        let r = store.modify_state_with_topo_id(
            table,
            self.list_access.id,
            (move |l: List<T>| -> (m: (List<T>, T))
                requires
                    idx < l.items.len(),
                ensures
                    m.0.items@ == l.items@.remove(idx as int) && m.1 == l.items@[idx as int],
                {
                    let mut l = l;
                    let item = l.remove(idx);
                    (l, item)
                }),
        );
        match r {
            Ok(item) => item,
            Err(_) => unreached(),
        }
    }

    /// Puts `item` in place of the item at `idx` of the list, which is
    /// returned.
    pub fn replace(
        &self,
        store: &mut Store,
        table: &mut Table<List<T>>,
        idx: usize,
        item: T,
    ) -> (r: T)
        requires
            old(store).wf(),
            old(store)@.cell(old(table)@, self.id()) is Some,
            idx < list_at(old(store)@, old(table)@, self.id()).len(),
        ensures
            final(store).wf(),
            list_post(
                old(store)@,
                old(table)@,
                self.id(),
                list_at(old(store)@, old(table)@, self.id()).update(idx as int, item),
                final(store)@,
                final(table)@,
            ),
            r == list_at(old(store)@, old(table)@, self.id())[idx as int],
    {
        let r = store.modify_state_with_topo_id(
            table,
            self.list_access.id,
            (move |l: List<T>| -> (m: (List<T>, T))
                requires
                    idx < l.items.len(),
                ensures
                    m.0.items@ == l.items@.update(idx as int, item) && m.1 == l.items@[idx as int],
                {
                    let mut l = l;
                    let item = l.replace(idx, item);
                    (l, item)
                }),
        );
        match r {
            Ok(item) => item,
            Err(_) => unreached(),
        }
    }
}


impl<T: Clone> ListControl<T> {
    /// A copy of the list, which must be present.
    pub fn get_list(&self, store: &mut Store, table: &Table<List<T>>) -> (r: List<T>)
        requires
            old(store).wf(),
            old(store)@.cell(table@, self.id()) is Some,
        ensures
            final(store).wf(),
            final(store)@ == old(store)@.touched(self.id()),
            copies(list_at(old(store)@, table@, self.id()), r.items@),
    {
        match store.get_state_with_topo_id(table, self.list_access.id) {
            Some(list) => list.clone(),
            None => unreached(),
        }
    }
}

/// The list hook: a copy of the list at `current_id`, made from the items
/// `initial_list_fn` gives and stored first where there is none, and the
/// controls of that list.
pub fn use_list<T: Clone, F: FnOnce() -> Vec<T>>(
    store: &mut Store,
    table: &mut Table<List<T>>,
    current_id: Id,
    initial_list_fn: F,
) -> (r: (List<T>, ListControl<T>))
    requires
        old(store).wf(),
        old(store)@.cell(old(table)@, current_id) is None ==> initial_list_fn.requires(()),
        old(store)@.has_room(current_id),
    ensures
        final(store).wf(),
        r.1.id() == current_id,
        final(store)@.cell(final(table)@, current_id) is Some,
        init_post(
            old(store)@,
            old(table)@,
            current_id,
            final(store)@.cell(final(table)@, current_id)->Some_0,
            final(store)@,
            final(table)@,
        ),
        old(store)@.cell(old(table)@, current_id) is None ==> initial_list_fn.ensures(
            (),
            final(store)@.cell(final(table)@, current_id)->Some_0.items,
        ),
        copies(list_at(final(store)@, final(table)@, current_id), r.0.items@),
{
    let (list, list_access) = use_state(
        store,
        table,
        current_id,
        (move || -> (l: List<T>)
            requires
                initial_list_fn.requires(()),
            ensures
                initial_list_fn.ensures((), l.items),
            { List::new(initial_list_fn()) }),
    );
    (list, ListControl::new(list_access))
}

} // verus!
