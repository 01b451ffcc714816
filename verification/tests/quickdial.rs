use tmwphone::accounts::IdGen;
use tmwphone::quickdial::QuickDial;

#[test]
fn display_label_prefers_label_then_number() {
    let mut ids = IdGen::new();
    let mut q = QuickDial::new(&mut ids);
    assert_eq!(q.display_label(), "Quickdial");
    q.number = "1001".to_string();
    assert_eq!(q.display_label(), "1001");
    q.label = "Reception".to_string();
    assert_eq!(q.display_label(), "Reception");
}

#[test]
fn new_entries_get_distinct_ids() {
    let mut ids = IdGen::new();
    let a = QuickDial::new(&mut ids);
    let b = QuickDial::new(&mut ids);
    assert!(!a.id.is_empty());
    assert_ne!(a.id, b.id);
    assert!(a.label.is_empty() && a.number.is_empty());
}
