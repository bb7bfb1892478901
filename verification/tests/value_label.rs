use cranelift::source_loc::{ComparableSourceLoc, SourceLoc};
use cranelift::value_label::{
    build_value_labels_index, LabelValueLoc, Value, ValueLabel, ValueLabelAssignments,
    ValueLabelStart, ValueLocRange,
};
use std::cmp::Ordering;
use std::collections::BTreeMap;

fn start(from: u32, label: u32) -> ValueLabelStart {
    ValueLabelStart { from: SourceLoc::new(from), label: ValueLabel(label) }
}

#[test]
fn index_of_no_labels_is_empty() {
    let index = build_value_labels_index(&None);
    assert!(index.is_empty());
}

#[test]
fn index_of_empty_map_is_empty() {
    let index = build_value_labels_index(&Some(BTreeMap::new()));
    assert!(index.is_empty());
}

#[test]
fn starts_are_indexed_and_default_locations_skipped() {
    let mut m = BTreeMap::new();
    m.insert(0, ValueLabelAssignments::Starts(vec![start(5, 7), start(u32::MAX, 8), start(3, 9)]));
    let index = build_value_labels_index(&Some(m));
    assert_eq!(index.len(), 2);
    assert_eq!(index.get(&5), Some(&(Value(0), ValueLabel(7))));
    assert_eq!(index.get(&3), Some(&(Value(0), ValueLabel(9))));
    assert_eq!(index.get(&u32::MAX), None);
}

#[test]
fn alias_takes_later_location_and_known_label_order() {
    let mut m = BTreeMap::new();
    m.insert(0, ValueLabelAssignments::Starts(vec![start(5, 7), start(u32::MAX, 8)]));
    m.insert(1, ValueLabelAssignments::Alias { from: SourceLoc::new(10), value: Value(0) });
    let index = build_value_labels_index(&Some(m));
    // Value 0: label 7 from 5 (label 8 has no known start).
    assert_eq!(index.get(&5), Some(&(Value(0), ValueLabel(7))));
    // Value 1: label 7 at max(10, 5) = 10, then label 8 at 10 replaces it.
    assert_eq!(index.get(&10), Some(&(Value(1), ValueLabel(8))));
    assert_eq!(index.len(), 2);
}

#[test]
fn alias_to_later_start_uses_the_start() {
    let mut m = BTreeMap::new();
    m.insert(2, ValueLabelAssignments::Starts(vec![start(40, 1)]));
    m.insert(1, ValueLabelAssignments::Alias { from: SourceLoc::new(10), value: Value(2) });
    let index = build_value_labels_index(&Some(m));
    // Value 1 is visited first and records label 1 at 40; value 2 then
    // records its own start at 40, which replaces it.
    assert_eq!(index.get(&40), Some(&(Value(2), ValueLabel(1))));
    assert_eq!(index.len(), 1);
}

#[test]
fn alias_chains_are_followed() {
    let mut m = BTreeMap::new();
    m.insert(0, ValueLabelAssignments::Starts(vec![start(2, 4)]));
    m.insert(3, ValueLabelAssignments::Alias { from: SourceLoc::new(20), value: Value(5) });
    m.insert(5, ValueLabelAssignments::Alias { from: SourceLoc::new(30), value: Value(0) });
    let index = build_value_labels_index(&Some(m));
    assert_eq!(index.get(&2), Some(&(Value(0), ValueLabel(4))));
    assert_eq!(index.get(&20), Some(&(Value(3), ValueLabel(4))));
    assert_eq!(index.get(&30), Some(&(Value(5), ValueLabel(4))));
    assert_eq!(index.len(), 3);
}

#[test]
fn alias_from_default_location_is_skipped() {
    let mut m = BTreeMap::new();
    m.insert(0, ValueLabelAssignments::Starts(vec![start(2, 4)]));
    m.insert(1, ValueLabelAssignments::Alias { from: SourceLoc::default(), value: Value(0) });
    let index = build_value_labels_index(&Some(m));
    assert_eq!(index.len(), 1);
}

#[test]
fn alias_to_value_without_entry_records_nothing() {
    let mut m = BTreeMap::new();
    m.insert(1, ValueLabelAssignments::Alias { from: SourceLoc::new(6), value: Value(9) });
    let index = build_value_labels_index(&Some(m));
    assert!(index.is_empty());
}

#[test]
fn later_values_replace_earlier_starts() {
    let mut m = BTreeMap::new();
    m.insert(4, ValueLabelAssignments::Starts(vec![start(8, 1)]));
    m.insert(2, ValueLabelAssignments::Starts(vec![start(8, 2)]));
    let index = build_value_labels_index(&Some(m));
    assert_eq!(index.get(&8), Some(&(Value(4), ValueLabel(1))));
}

#[test]
fn comparable_source_loc_orders_by_bits() {
    let a = ComparableSourceLoc::from(SourceLoc::new(3));
    let b = ComparableSourceLoc::from(SourceLoc::new(7));
    assert_eq!(a.cmp(&b), Ordering::Less);
    assert_eq!(b.cmp(&a), Ordering::Greater);
    assert_eq!(a.cmp(&a), Ordering::Equal);
    assert_eq!(a.partial_cmp(&b), Some(Ordering::Less));
    assert!(a < b);
    assert!(a == ComparableSourceLoc::from(SourceLoc::new(3)));
    assert!(a != b);
    assert_eq!(*a, SourceLoc::new(3));
    let d = ComparableSourceLoc::from(SourceLoc::default());
    assert!(b < d);
    assert_eq!(Ord::cmp(&a, &b), Ordering::Less);
    assert_eq!(std::cmp::max(a, b), b);
    assert_eq!(std::cmp::max(d, a), d);
}

#[test]
fn source_loc_default_is_all_ones() {
    assert!(SourceLoc::default().is_default());
    assert_eq!(SourceLoc::default().bits(), u32::MAX);
    assert!(!SourceLoc::new(0).is_default());
}

#[test]
fn value_loc_range_holds_its_fields() {
    let r = ValueLocRange { loc: LabelValueLoc::SPOffset(-16), start: 4, end: 12 };
    assert_eq!(r.loc, LabelValueLoc::SPOffset(-16));
    assert!(r.start < r.end);
}
