use vstd::prelude::*;

verus! {

pub const IMAGES_DIR: &'static str = "storage/images/";

pub const TMP_DIR: &'static str = "storage/tmp/";

/// The box that thumbnails are fitted into.
pub const THUMB_WIDTH: u32 = 400;

pub const THUMB_HEIGHT: u32 = 120;

#[derive(Clone, Copy, Debug, PartialEq, Eq, Structural)]
pub struct AreaDimensions {
    pub width: u32,
    pub height: u32,
}

/// The size of an image scaled, keeping its aspect, to fit the area: the
/// side that binds is set to the area's, the other scaled by the same ratio
/// and rounded down. An image without extent along the width gives no size.
pub open spec fn fitted(area_width: u32, area_height: u32, image_width: u32, image_height: u32) -> AreaDimensions {
    if (area_height as int) * (image_width as int) < (area_width as int) * (image_height as int) {
        AreaDimensions {
            width: ((image_width as int) * (area_height as int) / (image_height as int)) as u32,
            height: area_height,
        }
    } else if image_width == 0 {
        AreaDimensions { width: 0, height: 0 }
    } else {
        AreaDimensions {
            width: area_width,
            height: ((image_height as int) * (area_width as int) / (image_width as int)) as u32,
        }
    }
}

/// Scales an image's size to fit the area, keeping its aspect.
pub fn resize_to_fit(
    area_width: &u32,
    area_height: &u32,
    image_width: &u32,
    image_height: &u32,
) -> (r: AreaDimensions)
    ensures
        r == fitted(*area_width, *area_height, *image_width, *image_height),
        r.width <= *area_width,
        r.height <= *area_height,
{
    let aw = *area_width as u64;
    let ah = *area_height as u64;
    let iw = *image_width as u64;
    let ih = *image_height as u64;
    proof {
        assert(ah * iw <= u32::MAX * u32::MAX) by (nonlinear_arith)
            requires
                ah <= u32::MAX,
                iw <= u32::MAX,
        ;
        assert(aw * ih <= u32::MAX * u32::MAX) by (nonlinear_arith)
            requires
                aw <= u32::MAX,
                ih <= u32::MAX,
        ;
    }
    if ah * iw < aw * ih {
        proof {
            assert((iw as int) * (ah as int) / (ih as int) < aw as int) by (nonlinear_arith)
                requires
                    ah * iw < aw * ih,
                    ih > 0,
            ;
        }
        AreaDimensions { width: (iw * ah / ih) as u32, height: *area_height }
    } else if iw == 0 {
        AreaDimensions { width: 0, height: 0 }
    } else {
        proof {
            assert((ih as int) * (aw as int) / (iw as int) <= ah as int) by (nonlinear_arith)
                requires
                    ah * iw >= aw * ih,
                    iw > 0,
            ;
        }
        AreaDimensions { width: *area_width, height: (ih * aw / iw) as u32 }
    }
}

} // verus!
