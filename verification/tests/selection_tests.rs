use molview::selection::{get_selected_atoms, update_atom_selection, SelectedAtoms, SelectionEvent};

#[test]
fn select_is_idempotent() {
    let mut s = SelectedAtoms::new();
    s.select(5);
    s.select(5);
    assert_eq!(s.snapshot().as_slice(), &[5]);
}

#[test]
fn deselect_removes_only_that_id() {
    let mut s = SelectedAtoms::new();
    s.select(5);
    s.select(7);
    s.deselect(5);
    assert_eq!(s.snapshot().as_slice(), &[7]);
}

#[test]
fn deselect_on_empty_is_a_noop() {
    let mut s = SelectedAtoms::new();
    s.deselect(9);
    assert!(s.snapshot().is_empty());
}

#[test]
fn deselect_absent_id_is_a_noop() {
    let mut s = SelectedAtoms::new();
    s.select(1);
    s.select(2);
    s.deselect(9);
    assert_eq!(s.snapshot().as_slice(), &[1, 2]);
}

#[test]
fn snapshot_keeps_insertion_order() {
    let mut s = SelectedAtoms::new();
    s.select(30);
    s.select(10);
    s.select(20);
    assert_eq!(s.snapshot().as_slice(), &[30, 10, 20]);
    s.deselect(10);
    assert_eq!(s.snapshot().as_slice(), &[30, 20]);
    // Re-selecting a removed id appends it at the end.
    s.select(10);
    assert_eq!(s.snapshot().as_slice(), &[30, 20, 10]);
}

#[test]
fn contains_reports_membership() {
    let mut s = SelectedAtoms::new();
    assert!(!s.contains(4));
    s.select(4);
    assert!(s.contains(4));
    s.deselect(4);
    assert!(!s.contains(4));
}

#[test]
fn clear_empties_the_selection() {
    let mut s = SelectedAtoms::new();
    s.select(1);
    s.select(2);
    s.clear();
    assert!(s.snapshot().is_empty());
}

#[test]
fn event_stream_applies_in_arrival_order() {
    let mut s = SelectedAtoms::new();
    let events = vec![
        SelectionEvent::Select(5),
        SelectionEvent::Select(7),
        SelectionEvent::Select(5),
        SelectionEvent::Deselect(5),
        SelectionEvent::Select(9),
    ];
    update_atom_selection(&mut s, &events);
    assert_eq!(s.snapshot().as_slice(), &[7, 9]);
}

#[test]
fn get_selected_atoms_filters_by_picking_state() {
    let atoms = vec![(3, true), (1, false), (4, true), (1, true), (5, false)];
    assert_eq!(get_selected_atoms(&atoms), vec![3, 4, 1]);
    let none: Vec<(usize, bool)> = Vec::new();
    assert_eq!(get_selected_atoms(&none), Vec::<usize>::new());
}

#[test]
fn default_selection_is_empty() {
    let s = SelectedAtoms::default();
    assert!(s.snapshot().is_empty());
}
