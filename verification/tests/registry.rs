use slaughterhouse::{new, Animal, AnimalClone, Cow, Error, Hall, Hook, Slaughterhouse};

#[derive(Debug, Clone, PartialEq)]
struct Pig {
    name: String,
    weight: u32,
}

impl AnimalClone for Pig {
    fn clone_box(&self) -> Box<Self> {
        Box::new(self.clone())
    }
}

impl Animal for Pig {
    fn race(&self) -> &str {
        "Pig"
    }

    fn get_name(&self) -> String {
        self.name.clone()
    }
}

fn pig(name: &str, weight: u32) -> Box<Pig> {
    Box::new(Pig { name: name.to_string(), weight })
}

fn names(registry: &Slaughterhouse<'_, Pig>) -> Vec<Option<String>> {
    registry
        .iter_hooks()
        .into_iter()
        .map(|hook: &Hook<Pig>| hook.as_ref().map(|animal| animal.get_name()))
        .collect()
}

fn some(name: &str) -> Option<String> {
    Some(name.to_string())
}

#[test]
fn farm_with_one_barn_of_two_hooks() {
    let mut registry: Slaughterhouse<Cow> = new();
    registry.add_location("Farm");
    assert_eq!(registry.add_unit("Farm", "Barn", 2), Ok(()));

    assert_eq!(registry.add_animal("Farm", "Barn", Cow::new("A")), Ok(0));
    assert_eq!(registry.add_animal("Farm", "Barn", Cow::new("B")), Ok(1));
    assert!(!registry.has_free_hook());
    assert_eq!(registry.add_animal("Farm", "Barn", Cow::new("C")), Err(Error::NoCapacity));

    let first = registry.get_animal("Farm", "Barn", 0).unwrap();
    assert_eq!(first.get_name(), "A");
    assert_eq!(first.race(), "Cow");
    assert_eq!(registry.get_animal("Farm", "Barn", 5).err(), Some(Error::NotFound));
}

#[test]
fn unit_in_unknown_location_is_not_found() {
    let mut registry: Slaughterhouse<Pig> = Slaughterhouse::new();
    assert_eq!(registry.add_unit("Nowhere", "X", 1), Err(Error::NotFound));
    assert_eq!(registry.len(), 0);
    assert!(names(&registry).is_empty());
}

#[test]
fn new_registry_is_empty() {
    let registry: Slaughterhouse<Pig> = new();
    assert_eq!(registry.len(), 0);
    assert!(!registry.has_free_hook());
    assert!(registry.iter_hooks().is_empty());
    assert_eq!(registry.next_free_hook_index(), Err(Error::NoCapacity));

    let by_default: Slaughterhouse<Pig> = Slaughterhouse::default();
    assert_eq!(by_default.len(), 0);
    assert!(!by_default.has_free_hook());
}

#[test]
fn hall_has_its_capacity_in_empty_hooks() {
    let hall: Hall<Pig> = Hall::new(3);
    assert_eq!(hall.hooks().len(), 3);
    assert!(hall.hooks().iter().all(|hook| hook.is_none()));

    let none: Hall<Pig> = Hall::new(0);
    assert!(none.hooks().is_empty());
}

#[test]
fn free_hook_exactly_when_an_empty_slot_is_listed() {
    let mut registry: Slaughterhouse<Pig> = new();
    let listed_empty = |r: &Slaughterhouse<Pig>| r.iter_hooks().iter().any(|hook| hook.is_none());

    assert_eq!(registry.has_free_hook(), listed_empty(&registry));
    registry.add_location("Farm");
    assert_eq!(registry.has_free_hook(), listed_empty(&registry));
    assert!(!registry.has_free_hook());

    registry.add_unit("Farm", "Shed", 0).unwrap();
    assert_eq!(registry.has_free_hook(), listed_empty(&registry));
    assert!(!registry.has_free_hook());

    registry.add_unit("Farm", "Barn", 2).unwrap();
    assert_eq!(registry.has_free_hook(), listed_empty(&registry));
    assert!(registry.has_free_hook());

    registry.add_animal("Farm", "Barn", pig("Ann", 80)).unwrap();
    assert_eq!(registry.has_free_hook(), listed_empty(&registry));
    assert!(registry.has_free_hook());

    registry.add_animal("Farm", "Barn", pig("Bob", 90)).unwrap();
    assert_eq!(registry.has_free_hook(), listed_empty(&registry));
    assert!(!registry.has_free_hook());
}

#[test]
fn full_registry_refuses_and_stays_as_it_was() {
    let mut registry: Slaughterhouse<Pig> = new();
    registry.add_location("Farm");
    registry.add_unit("Farm", "Barn", 1).unwrap();
    registry.add_unit("Farm", "Shed", 1).unwrap();
    registry.add_animal("Farm", "Barn", pig("Ann", 80)).unwrap();
    registry.add_animal("Farm", "Shed", pig("Bob", 90)).unwrap();
    let before = names(&registry);

    assert_eq!(registry.add_animal("Farm", "Barn", pig("Cid", 70)), Err(Error::NoCapacity));
    assert_eq!(names(&registry), before);
    assert_eq!(before, vec![some("Ann"), some("Bob")]);
    assert_eq!(*registry.get_animal("Farm", "Barn", 0).unwrap(), Pig { name: "Ann".into(), weight: 80 });
}

#[test]
fn no_capacity_comes_before_not_found() {
    let mut registry: Slaughterhouse<Pig> = new();
    registry.add_location("Farm");
    registry.add_unit("Farm", "Barn", 0).unwrap();
    assert_eq!(registry.add_animal("Mars", "Dome", pig("Ann", 80)), Err(Error::NoCapacity));
    assert_eq!(registry.add_animal("Farm", "Dome", pig("Ann", 80)), Err(Error::NoCapacity));
}

#[test]
fn unknown_target_is_not_found_and_nothing_changes() {
    let mut registry: Slaughterhouse<Pig> = new();
    registry.add_location("Farm");
    registry.add_unit("Farm", "Barn", 2).unwrap();

    assert_eq!(registry.add_animal("Mars", "Barn", pig("Ann", 80)), Err(Error::NotFound));
    assert_eq!(registry.add_animal("Farm", "Dome", pig("Ann", 80)), Err(Error::NotFound));
    assert_eq!(names(&registry), vec![None, None]);
    assert_eq!(registry.next_free_hook_index(), Ok((0, 0, 0)));
}

#[test]
fn added_animal_is_read_back() {
    let mut registry: Slaughterhouse<Pig> = new();
    registry.add_location("Farm");
    registry.add_unit("Farm", "Barn", 3).unwrap();
    let ann = Pig { name: "Ann".into(), weight: 80 };
    let bob = Pig { name: "Bob".into(), weight: 90 };

    let i = registry.add_animal("Farm", "Barn", Box::new(ann.clone())).unwrap();
    let j = registry.add_animal("Farm", "Barn", Box::new(bob.clone())).unwrap();
    assert_eq!((i, j), (0, 1));
    assert_eq!(*registry.get_animal("Farm", "Barn", i).unwrap(), ann);
    assert_eq!(*registry.get_animal("Farm", "Barn", j).unwrap(), bob);
    assert_eq!(names(&registry), vec![some("Ann"), some("Bob"), None]);
}

#[test]
fn lookup_off_the_books_is_not_found() {
    let mut registry: Slaughterhouse<Pig> = new();
    registry.add_location("Farm");
    registry.add_unit("Farm", "Barn", 2).unwrap();
    registry.add_animal("Farm", "Barn", pig("Ann", 80)).unwrap();

    assert_eq!(registry.get_animal("Farm", "Barn", 1).err(), Some(Error::NotFound));
    assert_eq!(registry.get_animal("Farm", "Barn", 2).err(), Some(Error::NotFound));
    assert_eq!(registry.get_animal("Farm", "Barn", usize::MAX).err(), Some(Error::NotFound));
    assert_eq!(registry.get_animal("Mars", "Barn", 0).err(), Some(Error::NotFound));
    assert_eq!(registry.get_animal("Farm", "Dome", 0).err(), Some(Error::NotFound));
    assert_eq!(registry.get_animal("", "", 0).err(), Some(Error::NotFound));
    assert_eq!(registry.get_animal("Farm", "Barn", 0).unwrap().get_name(), "Ann");
}

#[test]
fn copies_live_apart_from_what_hangs() {
    let mut registry: Slaughterhouse<Pig> = new();
    registry.add_location("Farm");
    registry.add_unit("Farm", "Barn", 1).unwrap();
    registry.add_location("Yard");
    registry.add_unit("Yard", "Pen", 1).unwrap();

    let mut first_pig = pig("Ann", 80);
    registry.add_animal("Farm", "Barn", first_pig.clone_box()).unwrap();
    let mut copy = registry.get_animal("Farm", "Barn", 0).unwrap();
    registry.add_animal("Yard", "Pen", copy.clone_box()).unwrap();

    copy.weight = 1;
    copy.name.push_str("-copy");
    first_pig.weight = 2;
    assert_eq!(*registry.get_animal("Farm", "Barn", 0).unwrap(), Pig { name: "Ann".into(), weight: 80 });
    assert_eq!(*registry.get_animal("Yard", "Pen", 0).unwrap(), Pig { name: "Ann".into(), weight: 80 });

    registry.add_location("Yard");
    assert_eq!(registry.get_animal("Yard", "Pen", 0).err(), Some(Error::NotFound));
    assert_eq!(*registry.get_animal("Farm", "Barn", 0).unwrap(), Pig { name: "Ann".into(), weight: 80 });
    assert_eq!(*first_pig, Pig { name: "Ann".into(), weight: 2 });
    assert_eq!(*copy, Pig { name: "Ann-copy".into(), weight: 1 });
}

#[test]
fn animal_goes_to_the_first_free_hook_of_the_walk() {
    let mut registry: Slaughterhouse<Pig> = new();
    registry.add_location("A");
    registry.add_unit("A", "U1", 1).unwrap();
    registry.add_location("B");
    registry.add_unit("B", "U2", 2).unwrap();

    assert_eq!(registry.next_free_hook_index(), Ok((0, 0, 0)));
    assert_eq!(registry.add_animal("B", "U2", pig("Ann", 80)), Ok(0));
    assert_eq!(names(&registry), vec![some("Ann"), None, None]);
    assert_eq!(registry.get_animal("A", "U1", 0).unwrap().get_name(), "Ann");
    assert_eq!(registry.get_animal("B", "U2", 0).err(), Some(Error::NotFound));

    assert_eq!(registry.next_free_hook_index(), Ok((1, 0, 0)));
    assert_eq!(registry.add_animal("A", "U1", pig("Bob", 90)), Ok(0));
    assert_eq!(registry.add_animal("A", "U1", pig("Cid", 70)), Ok(1));
    assert_eq!(names(&registry), vec![some("Ann"), some("Bob"), some("Cid")]);
    assert_eq!(registry.get_animal("B", "U2", 1).unwrap().get_name(), "Cid");
    assert_eq!(registry.next_free_hook_index(), Err(Error::NoCapacity));
}

#[test]
fn walk_skips_full_and_empty_halls() {
    let mut registry: Slaughterhouse<Pig> = new();
    registry.add_location("Bare");
    registry.add_location("Farm");
    registry.add_unit("Farm", "Nook", 0).unwrap();
    registry.add_unit("Farm", "Barn", 1).unwrap();
    registry.add_unit("Farm", "Shed", 2).unwrap();

    assert_eq!(registry.next_free_hook_index(), Ok((1, 1, 0)));
    assert_eq!(registry.add_animal("Farm", "Barn", pig("Ann", 80)), Ok(0));
    assert_eq!(registry.next_free_hook_index(), Ok((1, 2, 0)));
    assert_eq!(registry.add_animal("Farm", "Shed", pig("Bob", 90)), Ok(0));
    assert_eq!(registry.next_free_hook_index(), Ok((1, 2, 1)));
    assert_eq!(registry.add_animal("Farm", "Shed", pig("Cid", 70)), Ok(1));
    assert_eq!(registry.get_animal("Farm", "Shed", 1).unwrap().get_name(), "Cid");
    assert!(!registry.has_free_hook());
}

#[test]
fn adding_a_location_again_empties_it_in_place() {
    let mut registry: Slaughterhouse<Pig> = new();
    registry.add_location("Farm");
    registry.add_location("Yard");
    registry.add_unit("Farm", "Barn", 1).unwrap();
    registry.add_unit("Yard", "Pen", 1).unwrap();
    registry.add_animal("Farm", "Barn", pig("Ann", 80)).unwrap();

    registry.add_location("Farm");
    assert_eq!(registry.len(), 2);
    assert_eq!(registry[0].0, "Farm");
    assert_eq!(registry[1].0, "Yard");
    assert!(registry[0].1.is_empty());
    assert_eq!(registry.get_animal("Farm", "Barn", 0).err(), Some(Error::NotFound));
    assert_eq!(names(&registry), vec![None]);
    assert_eq!(registry.next_free_hook_index(), Ok((1, 0, 0)));
}

#[test]
fn adding_a_unit_again_empties_it_in_place() {
    let mut registry: Slaughterhouse<Pig> = new();
    registry.add_location("Farm");
    registry.add_unit("Farm", "Barn", 1).unwrap();
    registry.add_unit("Farm", "Shed", 1).unwrap();
    registry.add_animal("Farm", "Barn", pig("Ann", 80)).unwrap();
    registry.add_animal("Farm", "Shed", pig("Bob", 90)).unwrap();

    assert_eq!(registry.add_unit("Farm", "Barn", 3), Ok(()));
    assert_eq!(registry[0].1.len(), 2);
    assert_eq!(registry[0].1[0].0, "Barn");
    assert_eq!(registry[0].1[0].1.hooks().len(), 3);
    assert_eq!(registry[0].1[1].0, "Shed");
    assert_eq!(names(&registry), vec![None, None, None, some("Bob")]);
    assert_eq!(registry.get_animal("Farm", "Barn", 0).err(), Some(Error::NotFound));
}

#[test]
fn same_unit_name_in_two_locations() {
    let mut registry: Slaughterhouse<Pig> = new();
    registry.add_location("Farm");
    registry.add_location("Yard");
    registry.add_unit("Yard", "Barn", 1).unwrap();
    registry.add_unit("Farm", "Barn", 1).unwrap();

    assert_eq!(registry.add_animal("Farm", "Barn", pig("Ann", 80)), Ok(0));
    assert_eq!(registry.add_animal("Yard", "Barn", pig("Bob", 90)), Ok(0));
    assert_eq!(registry.get_animal("Farm", "Barn", 0).unwrap().get_name(), "Ann");
    assert_eq!(registry.get_animal("Yard", "Barn", 0).unwrap().get_name(), "Bob");
}

#[test]
fn names_are_told_apart_to_the_letter() {
    let mut registry: Slaughterhouse<Pig> = new();
    registry.add_location("Farm");
    registry.add_location("farm");
    registry.add_location("Far");
    registry.add_location("Färm");
    registry.add_location("");
    assert_eq!(registry.len(), 5);
    registry.add_unit("Färm", "Stall", 1).unwrap();
    assert_eq!(registry.add_unit("Farmä", "Stall", 1), Err(Error::NotFound));
    assert_eq!(registry.add_animal("Färm", "Stall", pig("Ann", 80)), Ok(0));
    assert_eq!(registry.get_animal("Färm", "Stall", 0).unwrap().get_name(), "Ann");
    assert_eq!(registry.get_animal("Farm", "Stall", 0).err(), Some(Error::NotFound));
    assert_eq!(registry.add_unit("", "", 0), Ok(()));
}

#[test]
fn listing_can_be_walked_again() {
    let mut registry: Slaughterhouse<Pig> = new();
    registry.add_location("Farm");
    registry.add_unit("Farm", "Barn", 2).unwrap();
    registry.add_animal("Farm", "Barn", pig("Ann", 80)).unwrap();

    let first = names(&registry);
    let second = names(&registry);
    assert_eq!(first, second);
    assert_eq!(first, vec![some("Ann"), None]);
    assert_eq!(registry.iter_hooks().len(), 2);
}
