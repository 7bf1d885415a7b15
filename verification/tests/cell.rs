use pointers::cell::Cell;

#[test]
fn cell_holds_its_initial_value() {
    let cell = Cell::new(7u32);
    assert_eq!(cell.get(), 7);
    assert_eq!(cell.get(), 7);
}

#[test]
fn cell_set_replaces_the_value() {
    let mut cell = Cell::new(1i64);
    cell.set(-4);
    assert_eq!(cell.get(), -4);
    cell.set(9);
    cell.set(12);
    assert_eq!(cell.get(), 12);
}

#[test]
fn cell_get_copies_out() {
    let mut cell = Cell::new((1u8, true));
    let before = cell.get();
    cell.set((2, false));
    assert_eq!(before, (1, true));
    assert_eq!(cell.get(), (2, false));
}

#[test]
fn cell_holds_values_that_are_not_copy() {
    let mut cell = Cell::new(String::from("one"));
    cell.set(String::from("two"));
    cell.set(String::from("three"));
}
