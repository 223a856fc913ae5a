use etalia::{Individual, IndividualKind, Page};

#[test]
fn individual_roles() {
    let a = Individual::author(String::from("Asmelash, L."));
    assert!(a.is_author() && !a.is_editor() && !a.is_contributor() && !a.is_translator());
    assert_eq!(a.name, "Asmelash, L.");
    assert!(Individual::editor(String::new()).is_editor());
    assert!(Individual::contributor(String::new()).is_contributor());
    assert!(Individual::translator(String::new()).is_translator());
    let o = Individual::new(IndividualKind::Other(String::from("illustrator")), String::from("X"));
    assert!(!o.is_author() && !o.is_editor() && !o.is_contributor() && !o.is_translator());
}

#[test]
fn page_forms() {
    assert!(Page::FromTo(3..=7).is_range());
    assert!(!Page::At(3).is_range());
    assert_eq!(Page::FromTo(3..=17).to_string(), "3-17");
    assert_eq!(Page::At(120).to_string(), "120");
}
