use comp_state::list::{use_list, List};
use comp_state::store::{Id, Store, Table};

fn letters(items: &[&str]) -> List<String> {
    List::new(items.iter().map(|s| s.to_string()).collect())
}

fn order(list: &List<String>) -> Vec<String> {
    list.items().clone()
}

fn strings(items: &[&str]) -> Vec<String> {
    items.iter().map(|s| s.to_string()).collect()
}

#[test]
fn move_up_swaps_with_previous() {
    let mut list = letters(&["a", "b", "c"]);
    list.move_item_up(1);
    assert_eq!(order(&list), strings(&["b", "a", "c"]));
}

#[test]
fn move_up_of_first_is_noop() {
    let mut list = letters(&["a", "b", "c"]);
    list.move_item_up(0);
    assert_eq!(order(&list), strings(&["a", "b", "c"]));
}

#[test]
fn move_down_swaps_with_next() {
    let mut list = letters(&["a", "b", "c"]);
    list.move_item_down(0);
    assert_eq!(order(&list), strings(&["b", "a", "c"]));
    let mut list = letters(&["a", "b", "c"]);
    list.move_item_down(1);
    assert_eq!(order(&list), strings(&["a", "c", "b"]));
}

#[test]
fn move_down_of_last_is_noop() {
    let mut list = letters(&["a", "b", "c"]);
    list.move_item_down(2);
    assert_eq!(order(&list), strings(&["a", "b", "c"]));
}

#[test]
fn reposition_table_three_items() {
    let cases: Vec<(usize, usize, Vec<&str>)> = vec![
        (0, 1, vec!["a", "b", "c"]),
        (0, 2, vec!["b", "a", "c"]),
        (0, 3, vec!["b", "c", "a"]),
        (1, 0, vec!["b", "a", "c"]),
        (1, 3, vec!["a", "c", "b"]),
        (2, 0, vec!["c", "a", "b"]),
        (2, 1, vec!["a", "c", "b"]),
        (0, 0, vec!["a", "b", "c"]),
        (1, 1, vec!["a", "b", "c"]),
        (2, 2, vec!["a", "b", "c"]),
        (1, 2, vec!["a", "b", "c"]),
        (2, 3, vec!["a", "b", "c"]),
        (0, 4, vec!["a", "b", "c"]),
        (3, 0, vec!["a", "b", "c"]),
    ];
    for (old_idx, new_idx, expected) in cases {
        let mut list = letters(&["a", "b", "c"]);
        list.move_item_to_position(old_idx, new_idx);
        assert_eq!(order(&list), strings(&expected), "{} -> {}", old_idx, new_idx);
    }
}

#[test]
fn reposition_table_five_items() {
    let cases: Vec<(usize, usize, Vec<&str>)> = vec![
        (2, 4, vec!["a", "b", "d", "c", "e"]),
        (4, 1, vec!["a", "e", "b", "c", "d"]),
        (0, 5, vec!["b", "c", "d", "e", "a"]),
        (3, 2, vec!["a", "b", "d", "c", "e"]),
        (1, 4, vec!["a", "c", "d", "b", "e"]),
        (4, 0, vec!["e", "a", "b", "c", "d"]),
        (3, 5, vec!["a", "b", "c", "e", "d"]),
        (2, 2, vec!["a", "b", "c", "d", "e"]),
        (5, 0, vec!["a", "b", "c", "d", "e"]),
        (0, 6, vec!["a", "b", "c", "d", "e"]),
    ];
    for (old_idx, new_idx, expected) in cases {
        let mut list = letters(&["a", "b", "c", "d", "e"]);
        list.move_item_to_position(old_idx, new_idx);
        assert_eq!(order(&list), strings(&expected), "{} -> {}", old_idx, new_idx);
    }
}

#[test]
fn reposition_of_empty_list_is_noop() {
    let mut list: List<String> = List::new(Vec::new());
    list.move_item_to_position(0, 0);
    list.move_item_down(0);
    assert!(list.items().is_empty());
}

#[test]
fn list_edits() {
    let mut list = letters(&["a", "b"]);
    list.insert(1, "x".to_string());
    assert_eq!(order(&list), strings(&["a", "x", "b"]));
    assert_eq!(list.remove(0), "a");
    assert_eq!(order(&list), strings(&["x", "b"]));
    assert_eq!(list.replace(1, "y".to_string()), "b");
    assert_eq!(order(&list), strings(&["x", "y"]));
    list.push("z".to_string());
    assert_eq!(order(&list), strings(&["x", "y", "z"]));
    list.clear();
    assert!(list.items().is_empty());
}

#[test]
fn list_control_edits_stored_list() {
    let mut store = Store::new();
    let mut lists: Table<List<String>> = Table::new();
    let (list, control) = use_list(&mut store, &mut lists, Id(4), || strings(&["a", "b", "c"]));
    assert_eq!(order(&list), strings(&["a", "b", "c"]));
    control.move_item_up(&mut store, &mut lists, 1);
    assert_eq!(order(&control.get_list(&mut store, &lists)), strings(&["b", "a", "c"]));
    control.move_item_down(&mut store, &mut lists, 1);
    assert_eq!(order(&control.get_list(&mut store, &lists)), strings(&["b", "c", "a"]));
    control.move_item_to_position(&mut store, &mut lists, 2, 0);
    assert_eq!(order(&control.get_list(&mut store, &lists)), strings(&["a", "b", "c"]));
    control.insert(&mut store, &mut lists, 0, "w".to_string());
    control.push(&mut store, &mut lists, "z".to_string());
    assert_eq!(
        order(&control.get_list(&mut store, &lists)),
        strings(&["w", "a", "b", "c", "z"])
    );
    assert_eq!(control.remove(&mut store, &mut lists, 1), "a");
    assert_eq!(control.replace(&mut store, &mut lists, 0, "v".to_string()), "w");
    assert_eq!(
        order(&control.get_list(&mut store, &lists)),
        strings(&["v", "b", "c", "z"])
    );
    let (again, _) = use_list(&mut store, &mut lists, Id(4), || strings(&["q"]));
    assert_eq!(order(&again), strings(&["v", "b", "c", "z"]));
    control.clear(&mut store, &mut lists);
    assert!(control.get_list(&mut store, &lists).items().is_empty());
}

#[test]
fn list_control_same_index_keeps_list() {
    let mut store = Store::new();
    let mut lists: Table<List<String>> = Table::new();
    let (_, control) = use_list(&mut store, &mut lists, Id(1), || strings(&["a", "b", "c"]));
    control.move_item_to_position(&mut store, &mut lists, 1, 1);
    assert_eq!(order(&control.get_list(&mut store, &lists)), strings(&["a", "b", "c"]));
}
