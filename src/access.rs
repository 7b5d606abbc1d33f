//! Access handles: an id and a type, copied freely and used long after the
//! traversal that made them, to read and write one cell.
use crate::store::{init_post, set_post, Id, Store, StoreError, Table};
use std::marker::PhantomData;
use vstd::prelude::*;

verus! {

/// A capability for the cell of type `T` at `id`. It owns nothing: every
/// use names the store and the table of `T`.
pub struct StateAccess<T> {
    pub id: Id,
    pub _phantom_data: PhantomData<T>,
}

impl<T> Clone for StateAccess<T> {
    fn clone(&self) -> (r: StateAccess<T>)
        ensures
            r.id == self.id,
    {
        StateAccess { id: self.id, _phantom_data: PhantomData }
    }
}

impl<T> StateAccess<T> {
    /// The handle of the cell of type `T` at `id`.
    pub fn new(id: Id) -> (r: StateAccess<T>)
        ensures
            r.id == id,
    {
        StateAccess { id, _phantom_data: PhantomData }
    }

    /// Writes `value` into the cell.
    pub fn set(&self, store: &mut Store, table: &mut Table<T>, value: T)
        requires
            old(store).wf(),
            old(store)@.has_room(self.id),
        ensures
            final(store).wf(),
            set_post(old(store)@, old(table)@, self.id, value, final(store)@, final(table)@),
    {
        store.set_state_with_topo_id(table, value, self.id);
    }

    /// Replaces the value of the cell by what `func` makes of it; fails with
    /// `NotFound` where the cell is absent.
    pub fn update<F: FnOnce(T) -> T>(&self, store: &mut Store, table: &mut Table<T>, func: F) -> (r:
        Result<(), StoreError>)
        requires
            old(store).wf(),
            old(store)@.cell(old(table)@, self.id) is Some ==> func.requires(
                (old(store)@.cell(old(table)@, self.id)->Some_0,),
            ),
        ensures
            final(store).wf(),
            final(store)@ == old(store)@.touched(self.id),
            r is Ok <==> old(store)@.cell(old(table)@, self.id) is Some,
            r is Err ==> (r matches Err(StoreError::NotFound)) && final(table)@ == old(table)@,
            r is Ok ==> {
                &&& final(store)@.cell(final(table)@, self.id) is Some
                &&& func.ensures(
                    (old(store)@.cell(old(table)@, self.id)->Some_0,),
                    final(store)@.cell(final(table)@, self.id)->Some_0,
                )
                &&& final(table)@ == old(table)@.insert(
                    old(store)@.keys[self.id.0],
                    final(store)@.cell(final(table)@, self.id)->Some_0,
                )
            },
    {
        store.update_state_with_topo_id(table, self.id, func)
    }
}

impl<T: Clone> StateAccess<T> {
    /// A copy of the value of the cell, if it is present.
    pub fn get(&self, store: &mut Store, table: &Table<T>) -> (r: Option<T>)
        requires
            old(store).wf(),
        ensures
            final(store).wf(),
            final(store)@ == old(store)@.touched(self.id),
            r is Some <==> old(store)@.cell(table@, self.id) is Some,
            r is Some ==> cloned(old(store)@.cell(table@, self.id)->Some_0, r->Some_0),
    {
        match store.get_state_with_topo_id(table, self.id) {
            Some(v) => Some(v.clone()),
            None => None,
        }
    }

    /// A copy of the value of the cell, which must be present.
    pub fn hard_get(&self, store: &mut Store, table: &Table<T>) -> (r: T)
        requires
            old(store).wf(),
            old(store)@.cell(table@, self.id) is Some,
        ensures
            final(store).wf(),
            final(store)@ == old(store)@.touched(self.id),
            cloned(old(store)@.cell(table@, self.id)->Some_0, r),
    {
        match store.get_state_with_topo_id(table, self.id) {
            Some(v) => v.clone(),
            None => unreached(),
        }
    }
}

/// The state hook: a copy of the value of `T` at `current_id`, made by
/// `data_fn` and stored first where there is none, and the handle of that
/// cell.
pub fn use_state<T: Clone, F: FnOnce() -> T>(
    store: &mut Store,
    table: &mut Table<T>,
    current_id: Id,
    data_fn: F,
) -> (r: (T, StateAccess<T>))
    requires
        old(store).wf(),
        old(store)@.cell(old(table)@, current_id) is None ==> data_fn.requires(()),
        old(store)@.has_room(current_id),
    ensures
        final(store).wf(),
        r.1.id == current_id,
        final(store)@.cell(final(table)@, current_id) is Some,
        init_post(
            old(store)@,
            old(table)@,
            current_id,
            final(store)@.cell(final(table)@, current_id)->Some_0,
            final(store)@,
            final(table)@,
        ),
        old(store)@.cell(old(table)@, current_id) is None ==> data_fn.ensures(
            (),
            final(store)@.cell(final(table)@, current_id)->Some_0,
        ),
        cloned(final(store)@.cell(final(table)@, current_id)->Some_0, r.0),
{
    let value = store.get_or_init(table, current_id, data_fn);
    (value, StateAccess::new(current_id))
}

} // verus!
