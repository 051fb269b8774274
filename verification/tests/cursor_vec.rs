use panicless::CursorVec;

#[test]
fn single_element_wraps_to_itself() {
    let mut c = CursorVec::new(5);
    assert_eq!(*c.get(), 5);
    c.next();
    assert_eq!(*c.get(), 5);

    c.push(6);
    c.next();
    assert_eq!(*c.get(), 6);
    c.next();
    assert_eq!(*c.get(), 5);
}

#[test]
fn prev_is_the_inverse_of_next() {
    let mut c = CursorVec::new(10);
    c.push(20);
    c.push(30);
    assert_eq!(c.tell(), 0);

    c.next();
    assert_eq!(c.tell(), 1);
    c.prev();
    assert_eq!(c.tell(), 0);

    c.prev();
    assert_eq!(c.tell(), 2);
    assert_eq!(*c.get(), 30);
    c.next();
    assert_eq!(c.tell(), 0);
}

#[test]
fn push_does_not_move_the_cursor() {
    let mut c = CursorVec::new(1);
    c.next();
    assert_eq!(c.tell(), 0);
    c.push(2);
    c.push(3);
    assert_eq!(c.tell(), 0);
    assert_eq!(c.len(), 3);
    assert_eq!(*c.get(), 1);
}

#[test]
fn get_mut_changes_the_current_element() {
    let mut c = CursorVec::new(7);
    c.push(8);
    c.next();
    *c.get_mut() = 80;
    assert_eq!(*c.get(), 80);
    *c.get_first_mut() = 70;
    c.prev();
    assert_eq!(*c.get(), 70);
}

#[test]
fn at_mut_changes_any_element() {
    let mut c = CursorVec::new(1);
    c.push(2);
    c.push(3);
    *c.at_mut(1) = 20;
    *c.at_mut(2) = 30;
    assert_eq!(c.tell(), 0);
    assert_eq!(*c.get(), 1);
    c.next();
    assert_eq!(*c.get(), 20);
    c.next();
    assert_eq!(*c.get(), 30);
}

#[test]
fn cursor_iterate() {
    let mut c = CursorVec::new(1);
    c.push(2);
    c.push(3);
    c.next();

    // Iteration is in storage order, independent of the cursor.
    let mut it = c.iter();
    assert_eq!(it.next(), Some(&1));
    assert_eq!(it.next(), Some(&2));
    assert_eq!(it.next(), Some(&3));
    assert_eq!(it.next(), None);
    assert_eq!(it.next(), None);
}

#[test]
fn sort_by_key_orders_the_elements() {
    let mut c = CursorVec::new(3);
    c.push(1);
    c.push(2);
    c.sort_by_key(|x| *x);
    let mut it = c.iter();
    assert_eq!(it.next(), Some(&1));
    assert_eq!(it.next(), Some(&2));
    assert_eq!(it.next(), Some(&3));
    assert_eq!(it.next(), None);
    assert_eq!(c.tell(), 0);
}

#[test]
fn tell_tracks_the_position() {
    let mut c = CursorVec::new("a");
    c.push("b");
    c.push("c");
    assert_eq!(c.tell(), 0);
    c.next();
    assert_eq!(c.tell(), 1);
    c.next();
    assert_eq!(c.tell(), 2);
    c.next();
    assert_eq!(c.tell(), 0);
    assert_eq!(c.len(), 3);
}
