use isa_codec::assembly_error::AssemblyError;

#[test]
fn new_error_has_no_place() {
    let error = AssemblyError::new("something".to_string());
    assert_eq!(error.description, "something");
    assert_eq!(error.address, None);
}

#[test]
fn new_address_error_has_its_place() {
    let error = AssemblyError::new_address("something".to_string(), 12);
    assert_eq!(error.description, "something");
    assert_eq!(error.address, Some(12));
}

#[test]
fn error_text_shows_the_place_first() {
    let placed = AssemblyError::new_address("Unknown label \"x\"".to_string(), 3);
    assert_eq!(placed.to_text(), "[Address 3] Unknown label \"x\"");
    let far = AssemblyError::new_address("far".to_string(), 4294967295);
    assert_eq!(far.to_text(), "[Address 4294967295] far");
    let first = AssemblyError::new_address("first".to_string(), 0);
    assert_eq!(first.to_text(), "[Address 0] first");
    let unplaced = AssemblyError::new("Unknown label \"x\"".to_string());
    assert_eq!(unplaced.to_text(), "Unknown label \"x\"");
}

#[test]
fn errors_are_ordered_by_place_alone() {
    let none = AssemblyError::new("z".to_string());
    let two = AssemblyError::new_address("y".to_string(), 2);
    let three = AssemblyError::new_address("a".to_string(), 3);
    let other_two = AssemblyError::new_address("b".to_string(), 2);
    assert!(none < two);
    assert!(two < three);
    assert!(three > two);
    assert!(two > none);
    assert_eq!(two.partial_cmp(&other_two), Some(std::cmp::Ordering::Equal));
    assert_eq!(none.partial_cmp(&none), Some(std::cmp::Ordering::Equal));
    assert_ne!(two, other_two);
    assert_eq!(two.clone(), two);
}

#[test]
fn errors_sort_by_place() {
    let mut errors = vec![
        AssemblyError::new_address("c".to_string(), 9),
        AssemblyError::new("n".to_string()),
        AssemblyError::new_address("a".to_string(), 1),
        AssemblyError::new_address("b".to_string(), 4),
    ];
    errors.sort_by(|left, right| left.partial_cmp(right).unwrap());
    let places: Vec<Option<u32>> = errors.iter().map(|error| error.address).collect();
    assert_eq!(places, vec![None, Some(1), Some(4), Some(9)]);
}
