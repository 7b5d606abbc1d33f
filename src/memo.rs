//! Hooks built on state cells: a memoised value, a watched value, and an
//! action that runs once.
use crate::access::{use_state, StateAccess};
use crate::store::{set_post, store_post, Id, Store, Table};
use vstd::std_specs::cmp::PartialEqSpec;
use vstd::prelude::*;

verus! {

/// The trigger of a memoised value: setting it makes the next evaluation
/// recompute.
pub struct MemoControl(pub StateAccess<bool>);

impl MemoControl {
    /// Sets the trigger to `trigger`.
    pub fn recalc(&self, store: &mut Store, flags: &mut Table<bool>, trigger: bool)
        requires
            old(store).wf(),
            old(store)@.has_room(self.0.id),
        ensures
            final(store).wf(),
            set_post(old(store)@, old(flags)@, self.0.id, trigger, final(store)@, final(flags)@),
    {
        self.0.set(store, flags, trigger);
    }
}

/// The outcome of watching a value: whether it changed since the last
/// evaluation, and the handle of the cell that remembers it.
pub struct Watch<T> {
    pub state_access: StateAccess<T>,
    pub changed: bool,
}

impl<T> Watch<T> {
    /// The outcome `changed` for the cell that `state_access` names.
    pub fn new(changed: bool, state_access: StateAccess<T>) -> (r: Watch<T>)
        ensures
            r.changed == changed,
            r.state_access.id == state_access.id,
    {
        Watch { state_access, changed }
    }
}

impl<T: Clone> Watch<T> {
    /// A copy of the remembered value, which must be present.
    pub fn hard_get(&self, store: &mut Store, table: &Table<T>) -> (r: T)
        requires
            old(store).wf(),
            old(store)@.cell(table@, self.state_access.id) is Some,
        ensures
            final(store).wf(),
            final(store)@ == old(store)@.touched(self.state_access.id),
            cloned(old(store)@.cell(table@, self.state_access.id)->Some_0, r),
    {
        self.state_access.hard_get(store, table)
    }
}

/// Compares `current_watched` with the value remembered at `current_id`:
/// a different value is remembered in its place and reported as a change.
/// The first evaluation remembers a copy and reports no change. Where
/// nothing is written, only `current_id` is touched.
pub fn watch<T: Clone + PartialEq>(
    store: &mut Store,
    table: &mut Table<T>,
    current_id: Id,
    current_watched: &T,
) -> (r: Watch<T>)
    requires
        old(store).wf(),
        old(store)@.has_room(current_id),
    ensures
        final(store).wf(),
        r.state_access.id == current_id,
        match old(store)@.cell(old(table)@, current_id) {
            None => !r.changed,
            Some(v) => T::obeys_eq_spec() ==> r.changed == !v.eq_spec(current_watched),
        },
        r.changed || old(store)@.cell(old(table)@, current_id) is None ==> {
            &&& final(store)@.cell(final(table)@, current_id) is Some
            &&& cloned(*current_watched, final(store)@.cell(final(table)@, current_id)->Some_0)
            &&& set_post(
                old(store)@,
                old(table)@,
                current_id,
                final(store)@.cell(final(table)@, current_id)->Some_0,
                final(store)@,
                final(table)@,
            )
        },
        !(r.changed || old(store)@.cell(old(table)@, current_id) is None) ==> {
            &&& final(store)@ == old(store)@.touched(current_id)
            &&& final(table)@ == old(table)@
        },
{
    let changed: bool = match store.get_state_with_topo_id(table, current_id) {
        Some(watched) => !watched.eq(current_watched),
        None => false,
    };
    let ghost (s1, t1) = (store@, table@);
    let (_, access) = use_state(
        store,
        table,
        current_id,
        (|| -> (c: T)
            ensures
                cloned(*current_watched, c),
            { current_watched.clone() }),
    );
    let ghost (s2, t2) = (store@, table@);
    let ghost c2 = store@.cell(table@, current_id)->Some_0;
    proof {
        if old(store)@.cell(old(table)@, current_id) is None {
            assert(s1.unseen =~= old(store)@.unseen.remove(current_id.0));
            assert(s2.unseen =~= old(store)@.unseen.remove(current_id.0));
            crate::store::lemma_set_then_get(s1, t1, current_id, c2, s2, t2);
        } else {
            assert(s2.unseen =~= old(store)@.unseen.remove(current_id.0));
            assert(s2 == old(store)@.touched(current_id));
        }
    }
    if changed {
        let fresh = current_watched.clone();
        let ghost stored = fresh;
        access.set(store, table, fresh);
        proof {
            crate::store::lemma_set_then_get(s2, t2, current_id, stored, store@, table@);
            crate::store::lemma_init_then_set(s1, t1, current_id, c2, s2, t2, stored, store@, table@);
            assert(store@.unseen =~= old(store)@.unseen.remove(current_id.0));
        }
    }
    Watch::new(changed, access)
}

/// The memo hook: the value remembered at `current_id`, recomputed by
/// `func` (and remembered) when `recalc` is asked for or the trigger at
/// `current_id` was set since; the trigger is then cleared. The first
/// evaluation computes and remembers the value, and sets up a cleared
/// trigger.
pub fn use_memo<T: Clone, F: Fn() -> T>(
    store: &mut Store,
    flags: &mut Table<bool>,
    values: &mut Table<T>,
    current_id: Id,
    recalc: bool,
    func: F,
) -> (r: (T, MemoControl))
    requires
        old(store).wf(),
        old(store)@.has_room(current_id),
        old(store)@.fits(old(values)@),
        func.requires(()),
    ensures
        final(store).wf(),
        (r.1).0.id == current_id,
        store_post(old(store)@, current_id, final(store)@),
        final(store)@.cell(final(values)@, current_id) is Some,
        recalc || old(store)@.cell(old(flags)@, current_id) == Some(true) ==> {
            &&& final(flags)@ == old(flags)@.insert(final(store)@.keys[current_id.0], false)
            &&& final(values)@ == old(values)@.insert(
                final(store)@.keys[current_id.0],
                final(store)@.cell(final(values)@, current_id)->Some_0,
            )
            &&& func.ensures((), r.0)
            &&& cloned(r.0, final(store)@.cell(final(values)@, current_id)->Some_0)
        },
        !(recalc || old(store)@.cell(old(flags)@, current_id) == Some(true)) ==> {
            &&& old(store)@.cell(old(flags)@, current_id) is Some ==> final(flags)@ == old(
                flags,
            )@
            &&& old(store)@.cell(old(flags)@, current_id) is None ==> final(flags)@ == old(
                flags,
            )@.insert(final(store)@.keys[current_id.0], false)
            &&& cloned(final(store)@.cell(final(values)@, current_id)->Some_0, r.0)
            &&& match old(store)@.cell(old(values)@, current_id) {
                Some(v) => final(values)@ == old(values)@ && final(store)@.cell(
                    final(values)@,
                    current_id,
                ) == Some(v),
                None => {
                    &&& final(values)@ == old(values)@.insert(
                        final(store)@.keys[current_id.0],
                        final(store)@.cell(final(values)@, current_id)->Some_0,
                    )
                    &&& func.ensures((), final(store)@.cell(final(values)@, current_id)->Some_0)
                },
            }
        },
{
    let (update, trigger) = use_state(
        store,
        flags,
        current_id,
        (|| -> (b: bool)
            ensures
                !b,
            { false }),
    );
    let ghost (s1, f1) = (store@, flags@);
    let ghost fb = s1.cell(f1, current_id)->Some_0;
    proof {
        crate::store::lemma_init_store_post(old(store)@, old(flags)@, current_id, fb, s1, f1);
        if !old(store)@.keys.contains_key(current_id.0) {
            assert(!old(values)@.contains_key(old(store)@.next));
        }
        assert(s1.cell(values@, current_id) == old(store)@.cell(old(values)@, current_id));
    }
    let (value, value_access) = use_state(
        store,
        values,
        current_id,
        (|| -> (v: T)
            requires
                func.requires(()),
            ensures
                func.ensures((), v),
            { func() }),
    );
    let ghost (s2, v1) = (store@, values@);
    let ghost w = s2.cell(v1, current_id)->Some_0;
    proof {
        crate::store::lemma_init_store_post(s1, old(values)@, current_id, w, s2, v1);
        crate::store::lemma_store_post_twice(old(store)@, current_id, s1, s2);
        if old(store)@.cell(old(values)@, current_id) is None {
            assert(v1 =~= old(values)@.insert(s2.keys[current_id.0], w));
        }
    }
    if update || recalc {
        let value = func();
        let fresh = value.clone();
        let ghost stored = fresh;
        value_access.set(store, values, fresh);
        let ghost (s3, v2) = (store@, values@);
        proof {
            crate::store::lemma_set_then_get(s2, v1, current_id, stored, s3, v2);
            crate::store::lemma_init_then_set(s1, old(values)@, current_id, w, s2, v1, stored, s3, v2);
            crate::store::lemma_store_post_twice(old(store)@, current_id, s2, s3);
        }
        trigger.set(store, flags, false);
        proof {
            crate::store::lemma_store_post_twice(old(store)@, current_id, s3, store@);
            assert(flags@ =~= old(flags)@.insert(store@.keys[current_id.0], false));
        }
        (value, MemoControl(trigger))
    } else {
        (value, MemoControl(trigger))
    }
}

/// Runs `func` the first time it is reached at `current_id`, and never
/// again while the flag there lives: the flag is then set, as by a write
/// of `true`. Where it was set already, only `current_id` is touched.
pub fn do_once<F: Fn()>(store: &mut Store, flags: &mut Table<bool>, current_id: Id, func: F)
    requires
        old(store).wf(),
        old(store)@.has_room(current_id),
        func.requires(()),
    ensures
        final(store).wf(),
        old(store)@.cell(old(flags)@, current_id) != Some(true) ==> {
            &&& func.ensures((), ())
            &&& set_post(old(store)@, old(flags)@, current_id, true, final(store)@, final(flags)@)
        },
        old(store)@.cell(old(flags)@, current_id) == Some(true) ==> {
            &&& final(store)@ == old(store)@.touched(current_id)
            &&& final(flags)@ == old(flags)@
        },
{
    let (has_done, has_done_access) = use_state(
        store,
        flags,
        current_id,
        (|| -> (b: bool)
            ensures
                !b,
            { false }),
    );
    let ghost (s1, f1) = (store@, flags@);
    let ghost fb = s1.cell(f1, current_id)->Some_0;
    if !has_done {
        func();
        has_done_access.set(store, flags, true);
        proof {
            crate::store::lemma_init_then_set(
                old(store)@,
                old(flags)@,
                current_id,
                fb,
                s1,
                f1,
                true,
                store@,
                flags@,
            );
        }
    }
}

} // verus!
