use comp_state::access::{use_state, StateAccess};
use comp_state::store::{Id, Store, StoreError, Table};
use std::cell::Cell;

#[test]
fn lib_it_works() {
    assert_eq!(2 + 2, 4);
}

#[test]
fn set_then_get_returns_value() {
    let mut store = Store::new();
    let mut numbers: Table<u32> = Table::new();
    let mut words: Table<String> = Table::new();
    store.set_state_with_topo_id(&mut numbers, 7u32, Id(3));
    store.set_state_with_topo_id(&mut words, String::from("hello"), Id(4));
    assert_eq!(store.get_state_with_topo_id(&numbers, Id(3)), Some(&7u32));
    assert_eq!(
        store.get_state_with_topo_id(&words, Id(4)),
        Some(&String::from("hello"))
    );
    assert_eq!(store.get_state_with_topo_id(&numbers, Id(4)), None);
    assert_eq!(store.get_state_with_topo_id(&words, Id(3)), None);
}

#[test]
fn set_overwrites_known_id() {
    let mut store = Store::new();
    let mut numbers: Table<u32> = Table::new();
    store.set_state_with_topo_id(&mut numbers, 1u32, Id(9));
    store.set_state_with_topo_id(&mut numbers, 2u32, Id(9));
    assert_eq!(store.get_state_with_topo_id(&numbers, Id(9)), Some(&2u32));
    assert_eq!(store.len(), 1);
    assert_eq!(numbers.len(), 1);
}

#[test]
fn one_id_holds_several_types() {
    let mut store = Store::new();
    let mut numbers: Table<u32> = Table::new();
    let mut flags: Table<bool> = Table::new();
    store.set_state_with_topo_id(&mut numbers, 5u32, Id(1));
    store.set_state_with_topo_id(&mut flags, true, Id(1));
    assert_eq!(store.get_state_with_topo_id(&numbers, Id(1)), Some(&5u32));
    assert_eq!(store.get_state_with_topo_id(&flags, Id(1)), Some(&true));
    assert_eq!(store.len(), 1);
}

#[test]
fn get_or_init_runs_factory_once() {
    let mut store = Store::new();
    let mut numbers: Table<u32> = Table::new();
    let calls = Cell::new(0u32);
    let first = store.get_or_init(&mut numbers, Id(2), || {
        calls.set(calls.get() + 1);
        41u32
    });
    let second = store.get_or_init(&mut numbers, Id(2), || {
        calls.set(calls.get() + 1);
        99u32
    });
    assert_eq!(first, 41);
    assert_eq!(second, 41);
    assert_eq!(calls.get(), 1);
}

#[test]
fn gc_reclaims_only_unseen() {
    let mut store = Store::new();
    let mut numbers: Table<u32> = Table::new();
    store.set_state_with_topo_id(&mut numbers, 10u32, Id(1));
    store.set_state_with_topo_id(&mut numbers, 20u32, Id(2));
    store.set_state_with_topo_id(&mut numbers, 30u32, Id(3));
    store.reset_unseen_id_list();
    assert_eq!(store.get_state_with_topo_id(&numbers, Id(1)), Some(&10u32));
    store.set_state_with_topo_id(&mut numbers, 21u32, Id(2));
    store.purge_unseen_ids();
    assert_eq!(store.get_state_with_topo_id(&numbers, Id(1)), Some(&10u32));
    assert_eq!(store.get_state_with_topo_id(&numbers, Id(2)), Some(&21u32));
    assert_eq!(store.get_state_with_topo_id(&numbers, Id(3)), None);
    assert_eq!(store.len(), 2);
}

#[test]
fn no_aliasing_between_ids() {
    let mut store = Store::new();
    let mut numbers: Table<u32> = Table::new();
    store.set_state_with_topo_id(&mut numbers, 1u32, Id(100));
    store.set_state_with_topo_id(&mut numbers, 2u32, Id(200));
    assert_eq!(store.get_state_with_topo_id(&numbers, Id(100)), Some(&1u32));
    assert_eq!(store.get_state_with_topo_id(&numbers, Id(200)), Some(&2u32));

    let mut other = Store::new();
    let mut values: Table<u32> = Table::new();
    other.set_state_with_topo_id(&mut values, 2u32, Id(200));
    other.set_state_with_topo_id(&mut values, 1u32, Id(100));
    assert_eq!(other.get_state_with_topo_id(&values, Id(100)), Some(&1u32));
    assert_eq!(other.get_state_with_topo_id(&values, Id(200)), Some(&2u32));
}

#[test]
fn purge_twice_is_purge_once() {
    let mut store = Store::new();
    let mut numbers: Table<u32> = Table::new();
    store.set_state_with_topo_id(&mut numbers, 1u32, Id(1));
    store.set_state_with_topo_id(&mut numbers, 2u32, Id(2));
    store.reset_unseen_id_list();
    store.set_state_with_topo_id(&mut numbers, 3u32, Id(1));
    store.purge_unseen_ids();
    assert_eq!(store.len(), 1);
    store.purge_unseen_ids();
    assert_eq!(store.len(), 1);
    assert_eq!(store.get_state_with_topo_id(&numbers, Id(1)), Some(&3u32));
    assert_eq!(store.get_state_with_topo_id(&numbers, Id(2)), None);
}

#[test]
fn unseen_cell_is_purged_scenario() {
    let mut store = Store::new();
    let mut numbers: Table<u32> = Table::new();
    store.set_state_with_topo_id(&mut numbers, 0u32, Id(1));
    let evaluated = Cell::new(false);
    let value = store.get_or_init(&mut numbers, Id(1), || {
        evaluated.set(true);
        99u32
    });
    assert_eq!(value, 0);
    assert!(!evaluated.get());
    store.reset_unseen_id_list();
    store.purge_unseen_ids();
    assert_eq!(store.get_state_with_topo_id(&numbers, Id(1)), None);
}

#[test]
fn purge_and_reset_starts_new_epoch() {
    let mut store = Store::new();
    let mut numbers: Table<u32> = Table::new();
    store.set_state_with_topo_id(&mut numbers, 1u32, Id(1));
    store.reset_unseen_id_list();
    store.set_state_with_topo_id(&mut numbers, 2u32, Id(2));
    store.purge_and_reset_unseen_ids();
    assert_eq!(store.len(), 1);
    store.purge_and_reset_unseen_ids();
    assert_eq!(store.len(), 0);
    assert_eq!(store.get_state_with_topo_id(&numbers, Id(2)), None);
}

#[test]
fn remove_forgets_id() {
    let mut store = Store::new();
    let mut numbers: Table<u32> = Table::new();
    store.set_state_with_topo_id(&mut numbers, 4u32, Id(8));
    store.remove_topo_id(Id(8));
    assert_eq!(store.len(), 0);
    assert_eq!(store.get_state_with_topo_id(&numbers, Id(8)), None);
    store.remove_topo_id(Id(8));
    assert_eq!(store.len(), 0);
}

#[test]
fn update_changes_present_cell() {
    let mut store = Store::new();
    let mut numbers: Table<u32> = Table::new();
    store.set_state_with_topo_id(&mut numbers, 4u32, Id(8));
    let r = store.update_state_with_topo_id(&mut numbers, Id(8), |v| v * 10);
    assert_eq!(r, Ok(()));
    assert_eq!(store.get_state_with_topo_id(&numbers, Id(8)), Some(&40u32));
}

#[test]
fn update_of_absent_cell_is_not_found() {
    let mut store = Store::new();
    let mut numbers: Table<u32> = Table::new();
    let mut flags: Table<bool> = Table::new();
    let r = store.update_state_with_topo_id(&mut numbers, Id(8), |v| v + 1);
    assert_eq!(r, Err(StoreError::NotFound));
    store.set_state_with_topo_id(&mut flags, true, Id(8));
    let r = store.update_state_with_topo_id(&mut numbers, Id(8), |v| v + 1);
    assert_eq!(r, Err(StoreError::NotFound));
    assert_eq!(numbers.len(), 0);
}

#[test]
fn modify_returns_func_result() {
    let mut store = Store::new();
    let mut numbers: Table<u32> = Table::new();
    store.set_state_with_topo_id(&mut numbers, 6u32, Id(5));
    let r = store.modify_state_with_topo_id(&mut numbers, Id(5), |v| (v + 1, v * 2));
    assert_eq!(r, Ok(12));
    assert_eq!(store.get_state_with_topo_id(&numbers, Id(5)), Some(&7u32));
    let r = store.modify_state_with_topo_id(&mut numbers, Id(6), |v| (v, v));
    assert_eq!(r, Err(StoreError::NotFound));
}

#[test]
fn access_handle_reads_and_writes() {
    let mut store = Store::new();
    let mut numbers: Table<u32> = Table::new();
    let (value, access) = use_state(&mut store, &mut numbers, Id(12), || 3u32);
    assert_eq!(value, 3);
    assert_eq!(access.id, Id(12));
    let copy = access.clone();
    copy.set(&mut store, &mut numbers, 8);
    assert_eq!(access.get(&mut store, &numbers), Some(8));
    assert_eq!(access.hard_get(&mut store, &numbers), 8);
    assert_eq!(access.update(&mut store, &mut numbers, |v| v + 1), Ok(()));
    assert_eq!(copy.get(&mut store, &numbers), Some(9));
    let (again, _) = use_state(&mut store, &mut numbers, Id(12), || 100u32);
    assert_eq!(again, 9);
}

#[test]
fn purged_handle_reads_absent() {
    let mut store = Store::new();
    let mut numbers: Table<u32> = Table::new();
    let access: StateAccess<u32> = StateAccess::new(Id(77));
    assert_eq!(access.get(&mut store, &numbers), None);
    access.set(&mut store, &mut numbers, 1);
    store.reset_unseen_id_list();
    store.purge_unseen_ids();
    assert_eq!(access.get(&mut store, &numbers), None);
    assert_eq!(
        access.update(&mut store, &mut numbers, |v| v + 1),
        Err(StoreError::NotFound)
    );
}

#[test]
fn new_store_and_table_are_empty() {
    let store = Store::new();
    let numbers: Table<u32> = Table::new();
    assert_eq!(store.len(), 0);
    assert_eq!(numbers.len(), 0);
}

#[test]
fn new_id_sees_no_stale_value_of_other_type() {
    let mut store = Store::new();
    let mut numbers: Table<u32> = Table::new();
    let mut flags: Table<bool> = Table::new();
    store.set_state_with_topo_id(&mut numbers, 1u32, Id(1));
    store.set_state_with_topo_id(&mut flags, true, Id(1));
    store.remove_topo_id(Id(1));
    store.set_state_with_topo_id(&mut numbers, 2u32, Id(2));
    assert_eq!(store.get_state_with_topo_id(&flags, Id(2)), None);
    store.set_state_with_topo_id(&mut numbers, 3u32, Id(1));
    assert_eq!(store.get_state_with_topo_id(&flags, Id(1)), None);
    assert_eq!(store.get_state_with_topo_id(&numbers, Id(1)), Some(&3u32));
}

#[test]
fn write_leaves_other_cells_alone() {
    let mut store = Store::new();
    let mut numbers: Table<u32> = Table::new();
    let mut flags: Table<bool> = Table::new();
    store.set_state_with_topo_id(&mut flags, false, Id(5));
    store.set_state_with_topo_id(&mut numbers, 9u32, Id(6));
    store.set_state_with_topo_id(&mut numbers, 10u32, Id(5));
    assert_eq!(store.get_state_with_topo_id(&flags, Id(5)), Some(&false));
    assert_eq!(store.get_state_with_topo_id(&flags, Id(6)), None);
    assert_eq!(store.get_state_with_topo_id(&numbers, Id(6)), Some(&9u32));
}

#[test]
fn write_order_does_not_matter() {
    let mut a = Store::new();
    let mut ta: Table<u32> = Table::new();
    a.set_state_with_topo_id(&mut ta, 1u32, Id(1));
    a.set_state_with_topo_id(&mut ta, 2u32, Id(2));
    let mut b = Store::new();
    let mut tb: Table<u32> = Table::new();
    b.set_state_with_topo_id(&mut tb, 2u32, Id(2));
    b.set_state_with_topo_id(&mut tb, 1u32, Id(1));
    for i in 0..4u64 {
        assert_eq!(
            a.get_state_with_topo_id(&ta, Id(i)),
            b.get_state_with_topo_id(&tb, Id(i))
        );
    }
}

#[test]
fn room_for_writes() {
    let mut store = Store::new();
    let mut numbers: Table<u32> = Table::new();
    assert!(store.has_room_for(Id(1)));
    store.set_state_with_topo_id(&mut numbers, 1u32, Id(1));
    assert!(store.has_room_for(Id(1)));
    assert!(store.has_room_for(Id(2)));
}

#[test]
fn sweep_drops_only_orphans() {
    let mut store = Store::new();
    let mut numbers: Table<u32> = Table::new();
    store.set_state_with_topo_id(&mut numbers, 1u32, Id(1));
    store.set_state_with_topo_id(&mut numbers, 2u32, Id(2));
    store.remove_topo_id(Id(1));
    assert_eq!(numbers.len(), 2);
    store.sweep_table(&mut numbers);
    assert_eq!(numbers.len(), 1);
    assert_eq!(store.get_state_with_topo_id(&numbers, Id(2)), Some(&2u32));
    assert_eq!(store.get_state_with_topo_id(&numbers, Id(1)), None);
}
