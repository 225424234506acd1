use vstd::prelude::*;

verus! {

/// An identity: a stored row with its row id, identifier and name.
#[derive(Clone, Debug)]
pub struct Person {
    pub id: i64,
    pub uuid: String,
    pub name: String,
}

impl PartialEq for Person {
    fn eq(&self, other: &Person) -> (r: bool) {
        self.id == other.id && self.uuid == other.uuid && self.name == other.name
    }
}

impl vstd::std_specs::cmp::PartialEqSpecImpl for Person {
    open spec fn obeys_eq_spec() -> bool {
        true
    }

    open spec fn eq_spec(&self, other: &Person) -> bool {
        self.id == other.id && self.uuid@ == other.uuid@ && self.name@ == other.name@
    }
}

impl Person {
    /// Name of the table that holds people.
    pub fn table_name() -> (r: String)
        ensures
            r@ == "persons"@,
    {
        String::from_str("persons")
    }

    /// A copy of this record, field for field.
    pub fn duplicate(&self) -> (r: Person)
        ensures
            r == *self,
    {
        Person { id: self.id, uuid: self.uuid.clone(), name: self.name.clone() }
    }
}

} // verus!
