//! Small sets.

use dxfeed::domain::Band;
use dxfeed::sets::ValueSet;

#[test]
fn values_are_held_once() {
    let mut set = ValueSet::new();
    assert!(set.is_empty());
    assert!(set.insert(Band::B20));
    assert!(!set.insert(Band::B20));
    assert!(set.insert(Band::B40));
    assert_eq!(set.len(), 2);
    assert!(set.contains(&Band::B40));
    assert!(!set.contains(&Band::B10));
}

#[test]
fn copies_hold_the_same() {
    let mut set: ValueSet<String> = ValueSet::default();
    set.insert("FOC".into());
    let copy = set.clone();
    assert!(copy.contains(&"FOC".to_string()));
    assert!(copy.contains_text("FOC"));
    assert!(!copy.contains_text("foc"));
    assert_eq!(copy.len(), 1);
}
