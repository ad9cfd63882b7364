use panel_frames::color::{white, Color};
use panel_frames::frames::{compose_frames, fits_reveal, frame_name, mask_unrevealed};
use panel_frames::raster::Raster;

const INK: Color = Color { r: 20, g: 40, b: 60, a: 255 };

#[test]
fn frame_indices_for_0500() {
    let e = Raster::from_pixel(6, 2, INK);
    let g = Raster::from_pixel(6, 2, Color { r: 1, g: 2, b: 3, a: 255 });
    let frames = compose_frames(&e, &g);
    let indices: Vec<u32> = frames.iter().map(|f| f.index).collect();
    assert_eq!(indices, vec![0, 1, 2, 3, 4, 4]);
    let names: Vec<String> = frames.iter().map(|f| frame_name("0500", f.index)).collect();
    assert_eq!(names, vec!["0500-0", "0500-1", "0500-2", "0500-3", "0500-4", "0500-4"]);
}

#[test]
fn first_mask_starts_left_of_second() {
    let e = Raster::from_pixel(6, 2, INK);
    let frames = compose_frames(&e, &e);
    for y in 0..2 {
        for x in 0..6 {
            let first = if x < 2 { INK } else { white() };
            let second = if x < 4 { INK } else { white() };
            assert_eq!(frames[0].image.get_pixel(x, y), first);
            assert_eq!(frames[1].image.get_pixel(x, y), second);
        }
    }
}

#[test]
fn held_frames_repeat_the_image() {
    let e = Raster::from_pixel(5, 3, INK);
    let g = Raster::from_pixel(4, 4, Color { r: 1, g: 2, b: 3, a: 255 });
    let frames = compose_frames(&e, &g);
    assert_eq!(frames.len(), 6);
    assert_eq!(frames[2].image, e);
    assert_eq!(frames[3].image, e);
    assert_eq!(frames[4].image, e);
    assert_eq!(frames[5].image, g);
}

#[test]
fn mask_offsets_round_down() {
    let e = Raster::from_pixel(5, 1, INK);
    let one = mask_unrevealed(&e, 1);
    let two = mask_unrevealed(&e, 2);
    let row = |r: &Raster| (0..5).map(|x| r.get_pixel(x, 0) == INK).collect::<Vec<bool>>();
    assert_eq!(row(&one), vec![true, false, false, false, false]);
    assert_eq!(row(&two), vec![true, true, true, false, false]);
}

#[test]
fn mask_on_width_one_covers_everything() {
    let e = Raster::from_pixel(1, 2, INK);
    assert_eq!(mask_unrevealed(&e, 1), Raster::from_pixel(1, 2, white()));
    assert_eq!(mask_unrevealed(&e, 2), Raster::from_pixel(1, 2, white()));
}

#[test]
fn reveal_limits() {
    assert!(fits_reveal(1, 1));
    assert!(!fits_reveal(0, 5));
    assert!(!fits_reveal(5, 0));
    assert!(fits_reveal(1_073_741_823, 2_147_483_647));
    assert!(!fits_reveal(1_073_741_824, 1));
    assert!(!fits_reveal(1, 2_147_483_648));
}

#[test]
fn frame_names_use_plain_decimal() {
    assert_eq!(frame_name("0500", 0), "0500-0");
    assert_eq!(frame_name("0501", 4), "0501-4");
    assert_eq!(frame_name("", 10), "-10");
    assert_eq!(frame_name("a-b", 4_294_967_295), "a-b-4294967295");
}
