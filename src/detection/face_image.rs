use vstd::prelude::*;

use crate::detection::Rectangle;

verus! {

/// One face found in an image: its identifier, where it was found, and its
/// embedding in serialized text form once measured.
#[derive(Debug)]
pub struct FaceImage {
    pub uuid: String,
    pub face_location: Option<Rectangle>,
    pub measurements: String,
}

impl FaceImage {
    pub fn new() -> (r: FaceImage)
        ensures
            crate::ident::is_uuid_text(r.uuid@),
            r.face_location is None,
            r.measurements@.len() == 0,
    {
        FaceImage { uuid: crate::ident::new_uuid(), face_location: None, measurements: String::new() }
    }

    pub fn store_face_location(&mut self, location: Rectangle)
        ensures
            final(self).face_location == Some(location),
            final(self).uuid == old(self).uuid,
            final(self).measurements == old(self).measurements,
    {
        self.face_location = Some(location);
    }

    pub fn store_measurements(&mut self, measurements: String)
        ensures
            final(self).measurements == measurements,
            final(self).uuid == old(self).uuid,
            final(self).face_location == old(self).face_location,
    {
        self.measurements = measurements;
    }
}

} // verus!
