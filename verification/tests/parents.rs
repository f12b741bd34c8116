use wavelet::parents::Parents;
use wavelet::Relationship;

#[test]
fn parents_depth_is_one_below_deepest() {
    let mut p = Parents::new();
    assert_eq!(p.child_depth(), Some(0));
    p.add((1, 3, Relationship::Trigger));
    p.add((2, 7, Relationship::Observe));
    p.add((3, 5, Relationship::Trigger));
    assert_eq!(p.child_depth(), Some(8));
    assert_eq!(p.len(), 3);
    assert!(p.contains((2, 7, Relationship::Observe)));
    assert!(!p.contains((2, 7, Relationship::Trigger)));
    assert_eq!(p.as_vec()[0], (1, 3, Relationship::Trigger));
}

#[test]
fn parents_depth_past_largest_is_none() {
    let mut p = Parents::new();
    p.add((1, u32::MAX, Relationship::Trigger));
    assert_eq!(p.child_depth(), None);
}
