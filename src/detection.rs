pub mod face_image;
pub mod photo;

use vstd::prelude::*;

use crate::detection::face_image::FaceImage;
use crate::detection::photo::Photo;

verus! {

/// A detected face region in image coordinates: `left`/`top` inclusive,
/// `right`/`bottom` exclusive.
#[derive(Clone, Copy, Debug, PartialEq, Eq, Structural)]
pub struct Rectangle {
    pub left: i64,
    pub top: i64,
    pub right: i64,
    pub bottom: i64,
}

/// The part of an image to cut out for one face.
#[derive(Clone, Copy, Debug, PartialEq, Eq, Structural)]
pub struct CropBox {
    pub x: u32,
    pub y: u32,
    pub width: u32,
    pub height: u32,
}

#[derive(Clone, Copy, Debug, PartialEq, Eq, Structural)]
pub enum DetectionError {
    /// The region at this index of the detector's output has negative
    /// extent or lies beyond the largest image size.
    InvalidRegion(usize),
}

/// A region can be cropped when its extent is not negative and its far edges
/// fit in image coordinates.
pub open spec fn region_is_valid(rect: Rectangle) -> bool {
    &&& rect.left <= rect.right
    &&& rect.top <= rect.bottom
    &&& rect.right <= u32::MAX
    &&& rect.bottom <= u32::MAX
}

/// One axis of a crop: the start clamped at zero, the length from there to
/// the far edge (zero when that edge is below zero).
pub open spec fn crop_span(low: i64, high: i64) -> (u32, u32)
    recommends
        low <= high <= u32::MAX,
{
    let start = if low < 0 { 0 } else { low };
    let len = if high < start { 0 } else { high - start };
    (start as u32, len as u32)
}

pub open spec fn crop_of(rect: Rectangle) -> CropBox {
    let (x, width) = crop_span(rect.left, rect.right);
    let (y, height) = crop_span(rect.top, rect.bottom);
    CropBox { x, y, width, height }
}

fn span(low: i64, high: i64) -> (r: (u32, u32))
    requires
        low <= high <= u32::MAX,
    ensures
        r == crop_span(low, high),
{
    let start: i64 = if low < 0 { 0 } else { low };
    let len: i64 = if high < start { 0 } else { high - start };
    (start as u32, len as u32)
}

/// The crop for a detected region, the part of it that lies at non-negative
/// coordinates; none for a region that cannot be cropped.
pub fn crop_box(rect: &Rectangle) -> (r: Option<CropBox>)
    ensures
        r == (if region_is_valid(*rect) { Some(crop_of(*rect)) } else { None::<CropBox> }),
{
    if rect.left <= rect.right && rect.top <= rect.bottom && rect.right <= u32::MAX as i64
        && rect.bottom <= u32::MAX as i64 {
        let (x, width) = span(rect.left, rect.right);
        let (y, height) = span(rect.top, rect.bottom);
        Some(CropBox { x, y, width, height })
    } else {
        None
    }
}

/// Index of the first region that cannot be cropped, if any.
pub open spec fn first_invalid_region(rects: Seq<Rectangle>) -> Option<int>
    decreases rects.len(),
{
    if rects.len() == 0 {
        None
    } else {
        match first_invalid_region(rects.drop_last()) {
            Some(i) => Some(i),
            None => if region_is_valid(rects.last()) {
                None
            } else {
                Some(rects.len() - 1)
            },
        }
    }
}

/// The face of a detection result that stands for `rect`: fresh identifier,
/// that location, no measurements yet.
pub open spec fn is_new_face_at(face: FaceImage, rect: Rectangle) -> bool {
    &&& crate::ident::is_uuid_text(face.uuid@)
    &&& face.face_location == Some(rect)
    &&& face.measurements@.len() == 0
}

/// Builds the detection result for one image from the face regions that the
/// detector found: a fresh photo with one face per region, in order. Fails,
/// naming the first such region, when a region cannot be cropped. No region
/// at all is no failure: the photo then has no faces.
pub fn call(rects: &Vec<Rectangle>) -> (r: Result<Photo, DetectionError>)
    ensures
        match first_invalid_region(rects@) {
            Some(i) => r == Err::<Photo, DetectionError>(DetectionError::InvalidRegion(i as usize)),
            None => r is Ok,
        },
        r matches Ok(photo) ==> {
            &&& crate::ident::is_uuid_text(photo.uuid@)
            &&& photo.faces@.len() == rects@.len()
            &&& photo.face_detected == (rects@.len() > 0)
            &&& forall|i: int|
                0 <= i < rects@.len() ==> is_new_face_at(#[trigger] photo.faces@[i], rects@[i])
        },
{
    let mut photo = Photo::new();
    let mut i: usize = 0;
    while i < rects.len()
        invariant
            0 <= i <= rects@.len(),
            first_invalid_region(rects@.take(i as int)) is None,
            crate::ident::is_uuid_text(photo.uuid@),
            photo.faces@.len() == i,
            photo.face_detected == (i > 0),
            forall|k: int| 0 <= k < i ==> is_new_face_at(#[trigger] photo.faces@[k], rects@[k]),
        decreases rects@.len() - i,
    {
        assert(rects@.take(i + 1).drop_last() =~= rects@.take(i as int));
        let rect = rects[i];
        match crop_box(&rect) {
            None => {
                proof {
                    lemma_first_invalid_extends(rects@, i as int);
                }
                return Err(DetectionError::InvalidRegion(i));
            },
            Some(_) => {},
        }
        let mut face = FaceImage::new();
        face.store_face_location(rect);
        photo.add_face(face);
        i = i + 1;
    }
    assert(rects@.take(i as int) =~= rects@);
    Ok(photo)
}

proof fn lemma_first_invalid_extends(rects: Seq<Rectangle>, i: int)
    requires
        0 <= i < rects.len(),
        first_invalid_region(rects.take(i)) is None,
        !region_is_valid(rects[i]),
    ensures
        first_invalid_region(rects) == Some(i),
    decreases rects.len(),
{
    assert(rects.take(i + 1).drop_last() =~= rects.take(i));
    if rects.len() > i + 1 {
        assert(rects.drop_last().take(i) =~= rects.take(i));
        lemma_first_invalid_extends(rects.drop_last(), i);
    } else {
        assert(rects.take(i) =~= rects.drop_last());
    }
}

} // verus!
