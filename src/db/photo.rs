use vstd::prelude::*;

use crate::db::face::Face;

verus! {

/// `rec` is the face row stored for `f`, a face of the photo `photo_uuid`:
/// not yet stored (row id 0), no person, not confirmed.
pub open spec fn is_face_record_of(
    rec: Face,
    f: crate::detection::face_image::FaceImage,
    photo_uuid: Seq<char>,
) -> bool {
    &&& rec.id == 0
    &&& rec.uuid == f.uuid
    &&& rec.photo_uuid@ == photo_uuid
    &&& rec.person_uuid@.len() == 0
    &&& rec.measurements == f.measurements
    &&& !rec.moderated
}

/// A detection result turned into the rows that store it.
pub struct DetectionRecords {
    pub photo: Photo,
    pub faces: Vec<Face>,
}

/// A stored photo.
#[derive(Clone, Debug)]
pub struct Photo {
    pub id: i64,
    pub uuid: String,
}

impl Photo {
    /// Name of the table that holds photos.
    pub fn table_name() -> (r: String)
        ensures
            r@ == "photos"@,
    {
        String::from_str("photos")
    }

    /// The rows that store a detection result: the photo row, and one face
    /// row per detected face, in order. Row ids are 0 until stored. A photo
    /// without faces gives no face rows.
    pub fn detection_records(photo: &crate::detection::photo::Photo) -> (r: DetectionRecords)
        ensures
            r.photo.id == 0,
            r.photo.uuid == photo.uuid,
            r.faces@.len() == photo.faces@.len(),
            forall|i: int|
                0 <= i < photo.faces@.len() ==> is_face_record_of(
                    #[trigger] r.faces@[i],
                    photo.faces@[i],
                    photo.uuid@,
                ),
    {
        let mut faces: Vec<Face> = Vec::new();
        let mut i: usize = 0;
        while i < photo.faces.len()
            invariant
                0 <= i <= photo.faces@.len(),
                faces@.len() == i,
                forall|k: int|
                    0 <= k < i ==> is_face_record_of(
                        #[trigger] faces@[k],
                        photo.faces@[k],
                        photo.uuid@,
                    ),
            decreases photo.faces@.len() - i,
        {
            let f = &photo.faces[i];
            faces.push(
                Face {
                    id: 0,
                    uuid: f.uuid.clone(),
                    photo_uuid: photo.uuid.clone(),
                    person_uuid: String::new(),
                    measurements: f.measurements.clone(),
                    moderated: false,
                },
            );
            i = i + 1;
        }
        DetectionRecords { photo: Photo { id: 0, uuid: photo.uuid.clone() }, faces }
    }
}

} // verus!
