use panel_frames::color::{is_white_enough, white, Color};
use panel_frames::raster::Raster;
use panel_frames::trim::{
    content_bounds, remove_padding, remove_padding_except_right, BoundingBox,
};

const BLACK: Color = Color { r: 0, g: 0, b: 0, a: 255 };

fn raster_with(width: u32, height: u32, marks: &[(u32, u32, Color)]) -> Raster {
    let mut data = vec![255u8; (width * height * 4) as usize];
    for &(x, y, c) in marks {
        let i = ((y * width + x) * 4) as usize;
        data[i] = c.r;
        data[i + 1] = c.g;
        data[i + 2] = c.b;
        data[i + 3] = c.a;
    }
    Raster::from_raw(width, height, data).unwrap()
}

#[test]
fn transparent_pixels_are_background() {
    assert!(is_white_enough(Color { r: 0, g: 0, b: 0, a: 0 }));
    assert!(is_white_enough(Color { r: 0, g: 0, b: 0, a: 254 }));
    assert!(is_white_enough(Color { r: 12, g: 200, b: 7, a: 128 }));
}

#[test]
fn opaque_black_is_content() {
    assert!(!is_white_enough(BLACK));
}

#[test]
fn whiteness_threshold_is_inclusive() {
    assert!(is_white_enough(Color { r: 100, g: 100, b: 100, a: 255 }));
    assert!(is_white_enough(white()));
    assert!(!is_white_enough(Color { r: 99, g: 255, b: 255, a: 255 }));
    assert!(!is_white_enough(Color { r: 255, g: 99, b: 255, a: 255 }));
    assert!(!is_white_enough(Color { r: 255, g: 255, b: 99, a: 255 }));
}

#[test]
fn from_raw_checks_the_length() {
    assert!(Raster::from_raw(2, 2, vec![0u8; 16]).is_some());
    assert!(Raster::from_raw(2, 2, vec![0u8; 15]).is_none());
    assert!(Raster::from_raw(2, 2, vec![0u8; 20]).is_none());
    assert!(Raster::from_raw(0, 7, Vec::new()).is_some());
}

#[test]
fn from_pixel_fills_the_canvas() {
    let r = Raster::from_pixel(3, 2, Color { r: 1, g: 2, b: 3, a: 4 });
    assert_eq!((r.width(), r.height()), (3, 2));
    assert_eq!(r.data, [1u8, 2, 3, 4].repeat(6));
}

#[test]
fn get_pixel_reads_row_major() {
    let mark = Color { r: 9, g: 8, b: 7, a: 255 };
    let r = raster_with(4, 3, &[(3, 1, mark)]);
    assert_eq!(r.get_pixel(3, 1), mark);
    assert_eq!(r.get_pixel(1, 3 - 1), white());
    assert_eq!(r.data[(1 * 4 + 3) * 4], 9);
}

#[test]
fn crop_clamps_to_the_raster() {
    let mark = Color { r: 9, g: 8, b: 7, a: 255 };
    let r = raster_with(4, 3, &[(3, 2, mark)]);
    let c = r.crop(2, 1, 10, 10);
    assert_eq!((c.width, c.height), (2, 2));
    assert_eq!(c.get_pixel(1, 1), mark);
    assert_eq!(c.get_pixel(0, 0), white());
    let empty = r.crop(9, 9, 1, 1);
    assert_eq!((empty.width, empty.height), (0, 0));
    assert!(empty.data.is_empty());
}

#[test]
fn bounds_of_scattered_content() {
    let r = raster_with(5, 4, &[(1, 1, BLACK), (3, 2, BLACK)]);
    assert_eq!(
        content_bounds(&r),
        Some(BoundingBox { min_x: 1, min_y: 1, max_x: 3, max_y: 2 })
    );
}

#[test]
fn bounds_of_single_pixel() {
    let r = raster_with(5, 4, &[(4, 3, BLACK)]);
    assert_eq!(
        content_bounds(&r),
        Some(BoundingBox { min_x: 4, min_y: 3, max_x: 4, max_y: 3 })
    );
}

#[test]
fn bounds_of_blank_raster() {
    assert_eq!(content_bounds(&raster_with(5, 4, &[])), None);
    assert_eq!(content_bounds(&raster_with(0, 0, &[])), None);
}

#[test]
fn transparent_marks_do_not_count_as_content() {
    let ghost = Color { r: 0, g: 0, b: 0, a: 200 };
    let r = raster_with(5, 4, &[(0, 0, ghost), (2, 2, BLACK)]);
    assert_eq!(
        content_bounds(&r),
        Some(BoundingBox { min_x: 2, min_y: 2, max_x: 2, max_y: 2 })
    );
}

#[test]
fn trim_crops_to_the_content() {
    let r = raster_with(5, 4, &[(1, 1, BLACK), (3, 2, BLACK)]);
    let t = remove_padding(r);
    assert_eq!((t.width, t.height), (3, 2));
    assert_eq!(t, raster_with(3, 2, &[(0, 0, BLACK), (2, 1, BLACK)]));
}

#[test]
fn trim_is_idempotent() {
    let r = raster_with(7, 6, &[(2, 1, BLACK), (5, 4, BLACK), (3, 3, BLACK)]);
    let once = remove_padding(r);
    let twice = remove_padding(once.clone());
    assert_eq!((once.width, once.height), (4, 4));
    assert_eq!(once, twice);
}

#[test]
fn trim_leaves_blank_raster_unchanged() {
    let r = Raster::from_pixel(100, 100, white());
    let t = remove_padding(r.clone());
    assert_eq!(t, r);
    assert_eq!((t.width, t.height), (100, 100));
}

#[test]
fn trim_leaves_empty_raster_unchanged() {
    let r = Raster::from_raw(0, 0, Vec::new()).unwrap();
    assert_eq!(remove_padding(r.clone()), r);
    let flat = Raster::from_raw(5, 0, Vec::new()).unwrap();
    assert_eq!(remove_padding(flat.clone()), flat);
}

#[test]
fn trim_except_right_keeps_the_right_edge() {
    let r = raster_with(5, 4, &[(1, 1, BLACK), (3, 2, BLACK)]);
    let t = remove_padding_except_right(r);
    assert_eq!((t.width, t.height), (4, 2));
    assert_eq!(t, raster_with(4, 2, &[(0, 0, BLACK), (2, 1, BLACK)]));
}

#[test]
fn trim_except_right_leaves_blank_raster_unchanged() {
    let r = Raster::from_pixel(6, 3, white());
    assert_eq!(remove_padding_except_right(r.clone()), r);
    let flat = Raster::from_raw(5, 0, Vec::new()).unwrap();
    assert_eq!(remove_padding_except_right(flat.clone()), flat);
}
