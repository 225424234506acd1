use vstd::prelude::*;

verus! {

/// A stored face: the photo it belongs to, the person assigned to it (empty
/// when none is), its embedding in serialized text form, and whether its
/// assignment was confirmed.
#[derive(Clone, Debug)]
pub struct Face {
    pub id: i64,
    pub uuid: String,
    pub photo_uuid: String,
    pub person_uuid: String,
    pub measurements: String,
    pub moderated: bool,
}

impl Face {
    /// Name of the table that holds faces.
    pub fn table_name() -> (r: String)
        ensures
            r@ == "faces"@,
    {
        String::from_str("faces")
    }
}

} // verus!
