use slaughterhouse::names::same_name;
use slaughterhouse::{Animal, AnimalClone, Cow};

#[test]
fn cow_knows_its_race_and_name() {
    let cow = Cow::new("Bessie");
    assert_eq!(cow.race(), "Cow");
    assert_eq!(cow.get_name(), "Bessie");
}

#[test]
fn cloned_cow_has_the_same_name() {
    let cow = Cow::new("Ulla");
    let boxed = cow.clone_box();
    let plain = (*cow).clone();
    drop(cow);
    assert_eq!(boxed.get_name(), "Ulla");
    assert_eq!(plain.get_name(), "Ulla");
    assert_eq!(boxed.race(), "Cow");
}

#[test]
fn cow_with_an_empty_name() {
    let cow = Cow::new("");
    assert_eq!(cow.get_name(), "");
}

#[test]
fn names_compare_by_their_text() {
    assert!(same_name("", ""));
    assert!(same_name("Barn", "Barn"));
    assert!(same_name("Färm", "Färm"));
    assert!(!same_name("Barn", "barn"));
    assert!(!same_name("Barn", "Bar"));
    assert!(!same_name("Bar", "Barn"));
    assert!(!same_name("", "x"));
    assert!(!same_name("Färm", "Farm"));
    assert!(!same_name("ab", "ba"));
}
