use pdf_ruin::strategy::StrategySet;

#[test]
fn empty_set_has_no_flags() {
    let s = StrategySet::empty();
    assert!(!s.geometry_strip);
    assert!(!s.annotation_suppress);
    assert!(!s.image_blank);
}

#[test]
fn from_names_sets_selected_flags() {
    let names = vec!["rect".to_string(), "image".to_string()];
    let s = StrategySet::from_names(&names).unwrap();
    assert!(s.geometry_strip);
    assert!(!s.annotation_suppress);
    assert!(s.image_blank);
}

#[test]
fn from_names_is_order_independent() {
    let a = StrategySet::from_names(&vec!["annotation".to_string(), "rect".to_string()]).unwrap();
    let b = StrategySet::from_names(&vec!["rect".to_string(), "annotation".to_string()]).unwrap();
    assert_eq!(a, b);
}

#[test]
fn from_names_tolerates_duplicates() {
    let s = StrategySet::from_names(&vec!["image".to_string(), "image".to_string()]).unwrap();
    assert!(s.image_blank);
    assert!(!s.geometry_strip);
}

#[test]
fn from_names_rejects_unknown_name() {
    let err = StrategySet::from_names(&vec!["rect".to_string(), "blur".to_string()])
        .err()
        .expect("unknown name must be a configuration error");
    assert_eq!(err.name, "blur");
}

#[test]
fn from_names_of_empty_list_is_empty_set() {
    let s = StrategySet::from_names(&Vec::new()).unwrap();
    assert_eq!(s, StrategySet::empty());
}
