use reactor::registry::{Registration, Registry};

#[test]
fn empty_registry_has_nothing() {
    let r = Registry::new();
    assert_eq!(r.len(), 0);
    assert!(!r.contains(3));
    assert!(r.get(3).is_none());
}

#[test]
fn insert_then_lookup() {
    let mut r = Registry::new();
    r.insert(5, Registration::Read { callback: 8 });
    assert_eq!(r.len(), 1);
    assert!(r.contains(5));
    assert!(matches!(r.get(5), Some(Registration::Read { callback: 8 })));
}

#[test]
fn at_most_one_registration_per_descriptor() {
    let mut r = Registry::new();
    r.insert(5, Registration::Read { callback: 1 });
    r.insert(5, Registration::Accept { callback: 2 });
    assert_eq!(r.len(), 1);
    assert!(matches!(r.get(5), Some(Registration::Accept { callback: 2 })));
}

#[test]
fn remove_returns_the_registration_once() {
    let mut r = Registry::new();
    r.insert(1, Registration::Write { payload: vec![9], written: 0, completion: 4 });
    let taken = r.remove(1);
    assert!(matches!(taken, Some(Registration::Write { completion: 4, .. })));
    assert!(!r.contains(1));
    assert!(r.remove(1).is_none());
    assert_eq!(r.len(), 0);
}

#[test]
fn drain_empties_and_lists_every_descriptor_once() {
    let mut r = Registry::new();
    r.insert(2, Registration::Read { callback: 1 });
    r.insert(4, Registration::Accept { callback: 2 });
    r.insert(6, Registration::Read { callback: 3 });
    r.remove(4);
    let mut fds = r.drain();
    fds.sort();
    assert_eq!(fds, vec![2, 6]);
    assert_eq!(r.len(), 0);
    assert!(!r.contains(2));
}
