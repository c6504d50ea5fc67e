//! A cow: the plainest animal, known by its name alone.
use vstd::prelude::*;
use crate::animal::{Animal, AnimalClone};

verus! {

/// A cow with a name.
#[derive(Debug)]
pub struct Cow {
    name: String,
}

impl View for Cow {
    type V = Seq<char>;

    /// The cow's name.
    closed spec fn view(&self) -> Seq<char> {
        self.name@
    }
}

impl Cow {
    /// A cow called `name`, ready to be hung on a hook.
    pub fn new(name: &str) -> (cow: Box<Self>)
        ensures
            cow@ == name@,
    {
        Box::new(Cow { name: name.to_owned() })
    }
}

impl Clone for Cow {
    /// A second cow of the same name.
    fn clone(&self) -> (copy: Self)
        ensures
            copy == *self,
    {
        Cow { name: self.name.clone() }
    }
}

impl AnimalClone for Cow {
    fn clone_box(&self) -> (copy: Box<Self>) {
        Box::new(self.clone())
    }
}

impl Animal for Cow {
    /// Always `"Cow"`.
    fn race(&self) -> (race: &str)
        ensures
            race@ == "Cow"@,
    {
        "Cow"
    }

    /// The name the cow was made with.
    fn get_name(&self) -> (name: String)
        ensures
            name@ == self@,
    {
        self.name.clone()
    }
}

} // verus!
