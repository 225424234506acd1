use video_sentry::storage::{resize_to_fit, AreaDimensions, THUMB_HEIGHT, THUMB_WIDTH};

#[test]
fn thumbnail_keeps_aspect() {
    let d = resize_to_fit(&THUMB_WIDTH, &THUMB_HEIGHT, &800, &600);
    assert_eq!(d, AreaDimensions { width: 160, height: 120 });
    let d = resize_to_fit(&400, &120, &800, &100);
    assert_eq!(d, AreaDimensions { width: 400, height: 50 });
    let d = resize_to_fit(&400, &120, &1000, &300);
    assert_eq!(d, AreaDimensions { width: 400, height: 120 });
    let d = resize_to_fit(&400, &120, &7, &3);
    assert_eq!(d, AreaDimensions { width: 280, height: 120 });
    let d = resize_to_fit(&400, &120, &0, &0);
    assert_eq!(d, AreaDimensions { width: 0, height: 0 });
}
