use content::types::{InsertAnchor, PaginateOptions};

#[test]
fn anchors_left_and_right_use_the_template() {
    assert!(InsertAnchor::Left.uses_template());
    assert!(InsertAnchor::Right.uses_template());
    assert!(!InsertAnchor::Heading.uses_template());
    assert!(!InsertAnchor::NoAnchor.uses_template());
}

#[test]
fn unwrap_num_gives_the_number() {
    assert_eq!(PaginateOptions::Num(5).unwrap_num(), 5);
    assert_eq!(PaginateOptions::Num(0).unwrap_num(), 0);
}
