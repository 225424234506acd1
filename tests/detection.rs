use video_sentry::db::photo::Photo as PhotoRecord;
use video_sentry::detection::photo::Photo;
use video_sentry::detection::{call, crop_box, CropBox, DetectionError, Rectangle};
use video_sentry::detection::face_image::FaceImage;

fn rect(left: i64, top: i64, right: i64, bottom: i64) -> Rectangle {
    Rectangle { left, top, right, bottom }
}

fn is_uuid(s: &str) -> bool {
    s.len() == 36
        && s.chars().enumerate().all(|(i, c)| {
            if [8, 13, 18, 23].contains(&i) {
                c == '-'
            } else {
                c.is_ascii_digit() || ('a'..='f').contains(&c)
            }
        })
}

#[test]
fn identifiers_are_fresh_hyphenated_hex() {
    let a = Photo::new().uuid;
    let b = FaceImage::new().uuid;
    assert!(is_uuid(&a));
    assert!(is_uuid(&b));
    assert_ne!(a, b);
}

#[test]
fn no_face_gives_empty_photo_without_error() {
    let photo = call(&Vec::new()).unwrap();
    assert!(photo.faces.is_empty());
    assert!(!photo.face_detected);
    assert!(is_uuid(&photo.uuid));
    let records = PhotoRecord::detection_records(&photo);
    assert_eq!(records.photo.uuid, photo.uuid);
    assert!(records.faces.is_empty());
}

#[test]
fn one_face_per_region_in_order() {
    let rects = vec![rect(1, 2, 11, 22), rect(30, 40, 50, 60)];
    let photo = call(&rects).unwrap();
    assert!(photo.face_detected);
    assert_eq!(photo.faces.len(), 2);
    assert_eq!(photo.faces[0].face_location, Some(rects[0]));
    assert_eq!(photo.faces[1].face_location, Some(rects[1]));
    assert_ne!(photo.faces[0].uuid, photo.faces[1].uuid);
    assert!(photo.faces[0].measurements.is_empty());
}

#[test]
fn inverted_region_is_refused() {
    let rects = vec![rect(0, 0, 10, 10), rect(10, 0, 5, 10), rect(20, 20, 1, 1)];
    assert!(matches!(call(&rects), Err(DetectionError::InvalidRegion(1))));
}

#[test]
fn crop_is_clamped_at_zero() {
    assert_eq!(crop_box(&rect(5, 6, 15, 26)), Some(CropBox { x: 5, y: 6, width: 10, height: 20 }));
    assert_eq!(crop_box(&rect(-4, -2, 6, 8)), Some(CropBox { x: 0, y: 0, width: 6, height: 8 }));
    assert_eq!(crop_box(&rect(-9, 0, -3, 4)), Some(CropBox { x: 0, y: 0, width: 0, height: 4 }));
    assert_eq!(crop_box(&rect(3, 0, 2, 4)), None);
    assert_eq!(crop_box(&rect(0, 0, 1 << 33, 4)), None);
}

#[test]
fn records_carry_faces_of_photo() {
    let mut photo = Photo::new();
    let mut f = video_sentry::detection::face_image::FaceImage::new();
    f.store_measurements("[0.12,-0.5,0.33]".to_string());
    f.store_face_location(rect(0, 0, 3, 3));
    let face_uuid = f.uuid.clone();
    photo.add_face(f);
    let records = PhotoRecord::detection_records(&photo);
    assert_eq!(records.photo.id, 0);
    assert_eq!(records.faces.len(), 1);
    let rec = &records.faces[0];
    assert_eq!(rec.uuid, face_uuid);
    assert_eq!(rec.photo_uuid, photo.uuid);
    assert_eq!(rec.person_uuid, "");
    assert_eq!(rec.measurements, "[0.12,-0.5,0.33]");
    assert!(!rec.moderated);
}
