use vstd::prelude::*;

use crate::detection::face_image::FaceImage;

verus! {

/// The detection result for one image: its identifier and the faces found
/// in it, in detection order.
#[derive(Debug)]
pub struct Photo {
    pub uuid: String,
    pub face_detected: bool,
    pub faces: Vec<FaceImage>,
}

impl Photo {
    pub fn new() -> (r: Photo)
        ensures
            crate::ident::is_uuid_text(r.uuid@),
            r.faces@.len() == 0,
            !r.face_detected,
    {
        Photo { uuid: crate::ident::new_uuid(), faces: Vec::new(), face_detected: false }
    }

    pub fn add_face(&mut self, face_image: FaceImage)
        ensures
            final(self).faces@ == old(self).faces@.push(face_image),
            final(self).face_detected,
            final(self).uuid == old(self).uuid,
    {
        self.faces.push(face_image);
        self.face_detected = true;
    }
}

} // verus!
