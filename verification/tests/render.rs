use viewport_archive::error::GeometryFault;
use viewport_archive::geometry::Ratio;
use viewport_archive::raster::Raster;
use viewport_archive::render::{
    blank_image, compose_plan, plan_viewport, render, Placement, VIEW_HEIGHT, VIEW_WIDTH,
};

fn ratio(num: u32, den: u32) -> Ratio {
    Ratio::new(num, den).unwrap()
}

fn placement(scale: Ratio, left: i32, top: i32, rotate: i32) -> Placement {
    Placement { scale, left, top, rotate }
}

/// An opaque raster in which every pixel is different.
fn pattern(width: u32, height: u32) -> Raster {
    let mut pixels = Vec::new();
    for y in 0..height {
        for x in 0..width {
            pixels.push((x % 251) as u8);
            pixels.push((y % 241) as u8);
            pixels.push(((x / 251) * 16 + y / 241) as u8);
            pixels.push(255);
        }
    }
    Raster::new(width, height, pixels).unwrap()
}

fn pixel(img: &Raster, x: u32, y: u32) -> [u8; 4] {
    let i = 4 * (y as usize * img.width() as usize + x as usize);
    let raw = img.as_raw();
    [raw[i], raw[i + 1], raw[i + 2], raw[i + 3]]
}

const BLACK: [u8; 4] = [0, 0, 0, 255];

#[test]
fn raster_needs_four_bytes_per_pixel() {
    assert!(Raster::new(2, 2, vec![0; 16]).is_some());
    assert!(Raster::new(2, 2, vec![0; 15]).is_none());
    assert!(Raster::new(2, 2, vec![0; 17]).is_none());
    assert!(Raster::new(0, 7, Vec::new()).is_some());
    assert!(Raster::new(u32::MAX, u32::MAX, vec![0; 4]).is_none());
    let r = Raster::new(3, 2, vec![7; 24]).unwrap();
    assert_eq!(r.width(), 3);
    assert_eq!(r.height(), 2);
    assert_eq!(r.as_raw(), &vec![7u8; 24]);
}

#[test]
fn blank_image_is_opaque_black_and_viewport_sized() {
    let b = blank_image();
    assert_eq!(b.width(), VIEW_WIDTH);
    assert_eq!(b.height(), VIEW_HEIGHT);
    assert_eq!(b.width(), 1920);
    assert_eq!(b.height(), 1080);
    assert_eq!(b.as_raw().len(), 4 * 1920 * 1080);
    for (i, v) in b.as_raw().iter().enumerate() {
        assert_eq!(*v, if i % 4 == 3 { 255 } else { 0 });
    }
}

#[test]
fn rotate_moves_every_pixel() {
    let src = pattern(3, 2);
    let r1 = pattern(3, 2).rotate(1);
    assert_eq!((r1.width(), r1.height()), (2, 3));
    let r2 = pattern(3, 2).rotate(2);
    assert_eq!((r2.width(), r2.height()), (3, 2));
    let r3 = pattern(3, 2).rotate(3);
    assert_eq!((r3.width(), r3.height()), (2, 3));
    for y in 0..2u32 {
        for x in 0..3u32 {
            assert_eq!(pixel(&r1, 1 - y, x), pixel(&src, x, y));
            assert_eq!(pixel(&r2, 2 - x, 1 - y), pixel(&src, x, y));
            assert_eq!(pixel(&r3, y, 2 - x), pixel(&src, x, y));
        }
    }
    let r0 = pattern(3, 2).rotate(0);
    assert_eq!(r0.as_raw(), src.as_raw());
    let r7 = pattern(3, 2).rotate(7);
    assert_eq!(r7.as_raw(), src.as_raw());
}

#[test]
fn four_quarter_turns_give_the_image_back() {
    let src = pattern(5, 3);
    let back = pattern(5, 3).rotate(1).rotate(1).rotate(1).rotate(1);
    assert_eq!((back.width(), back.height()), (5, 3));
    assert_eq!(back.as_raw(), src.as_raw());
    let half = pattern(5, 3).rotate(1).rotate(1);
    assert_eq!(half.as_raw(), pattern(5, 3).rotate(2).as_raw());
}

#[test]
fn resize_to_the_same_size_changes_nothing() {
    let src = pattern(4, 3);
    let same = pattern(4, 3).resize(4, 3);
    assert_eq!((same.width(), same.height()), (4, 3));
    assert_eq!(same.as_raw(), src.as_raw());
}

#[test]
fn resize_resamples_to_the_new_size() {
    let src = Raster::new(2, 2, [9u8, 8, 7, 255].repeat(4)).unwrap();
    let big = src.resize(6, 6);
    assert_eq!((big.width(), big.height()), (6, 6));
    assert_eq!(big.as_raw().len(), 4 * 36);
    for y in 0..6 {
        for x in 0..6 {
            assert_eq!(pixel(&big, x, y), [9, 8, 7, 255]);
        }
    }
    // The sides keep their proportion: the result fits the size asked for.
    let wide = pattern(4, 2).resize(8, 8);
    assert_eq!((wide.width(), wide.height()), (8, 4));
}

#[test]
fn overlay_replaces_covered_pixels_and_drops_what_falls_outside() {
    let bottom = Raster::new(4, 3, [1u8, 2, 3, 255].repeat(12)).unwrap();
    let top = pattern(3, 2);
    let out = bottom.overlay(&top, 2, 2);
    assert_eq!((out.width(), out.height()), (4, 3));
    for y in 0..3u32 {
        for x in 0..4u32 {
            if x >= 2 && y >= 2 {
                assert_eq!(pixel(&out, x, y), pixel(&top, x - 2, y - 2));
            } else {
                assert_eq!(pixel(&out, x, y), [1, 2, 3, 255]);
            }
        }
    }
}

#[test]
fn overlay_may_start_outside_the_bottom_image() {
    let bottom = Raster::new(4, 3, [1u8, 2, 3, 255].repeat(12)).unwrap();
    let top = pattern(3, 2);
    let out = bottom.overlay(&top, -1, -1);
    for y in 0..3u32 {
        for x in 0..4u32 {
            if x < 2 && y < 1 {
                assert_eq!(pixel(&out, x, y), pixel(&top, x + 1, y + 1));
            } else {
                assert_eq!(pixel(&out, x, y), [1, 2, 3, 255]);
            }
        }
    }
    let bottom = Raster::new(4, 3, [1u8, 2, 3, 255].repeat(12)).unwrap();
    let out = bottom.overlay(&top, 4, 0);
    assert_eq!(out.as_raw(), &[1u8, 2, 3, 255].repeat(12));
    let bottom = Raster::new(4, 3, [1u8, 2, 3, 255].repeat(12)).unwrap();
    let out = bottom.overlay(&top, i64::MIN, i64::MAX);
    assert_eq!(out.as_raw(), &[1u8, 2, 3, 255].repeat(12));
}

#[test]
fn overlay_keeps_the_bottom_under_clear_pixels() {
    let bottom = Raster::new(2, 1, vec![1, 2, 3, 255, 4, 5, 6, 255]).unwrap();
    let top = Raster::new(2, 1, vec![9, 9, 9, 0, 7, 7, 7, 255]).unwrap();
    let out = bottom.overlay(&top, 0, 0);
    assert_eq!(out.as_raw(), &vec![1, 2, 3, 255, 7, 7, 7, 255]);
}

#[test]
fn identity_placement_of_a_viewport_sized_image_gives_the_image() {
    let src = pattern(1920, 1080);
    let out = render(&src, &placement(Ratio::one(), 0, 0, 0), Ratio::one()).unwrap();
    assert_eq!((out.width(), out.height()), (1920, 1080));
    assert!(out.as_raw() == src.as_raw());
}

#[test]
fn rendering_has_period_360() {
    let src = pattern(40, 30);
    for r in [0, 90, -90, 180, 33] {
        let a = render(&src, &placement(Ratio::one(), 100, 200, r), Ratio::one()).unwrap();
        let b = render(&src, &placement(Ratio::one(), 100, 200, r + 360), Ratio::one()).unwrap();
        let c = render(&src, &placement(Ratio::one(), 100, 200, r - 360), Ratio::one()).unwrap();
        assert!(a.as_raw() == b.as_raw());
        assert!(a.as_raw() == c.as_raw());
    }
}

#[test]
fn unrotated_image_lands_at_its_offset() {
    let src = pattern(40, 30);
    let out = render(&src, &placement(Ratio::one(), 100, 200, 0), Ratio::one()).unwrap();
    assert_eq!((out.width(), out.height()), (1920, 1080));
    for y in 0..1080u32 {
        for x in 0..1920u32 {
            let want = if (100..140).contains(&x) && (200..230).contains(&y) {
                pixel(&src, x - 100, y - 200)
            } else {
                BLACK
            };
            assert_eq!(pixel(&out, x, y), want);
        }
    }
}

/// Renders a 40 by 30 pattern turned by `rotate` and checks every pixel
/// against the pattern turned by `turns` quarter turns.
fn check_rotation(rotate: i32, turns: u32) {
    let src = pattern(40, 30);
    let out = render(&src, &placement(Ratio::one(), 500, 400, rotate), Ratio::one()).unwrap();
    // The image's centre is at (520, 415) of the viewport.
    let (w, h, ox, oy) = if turns % 2 == 1 { (30u32, 40u32, 505u32, 395u32) } else { (40, 30, 500, 400) };
    for y in 0..1080u32 {
        for x in 0..1920u32 {
            let want = if x >= ox && x < ox + w && y >= oy && y < oy + h {
                let (dx, dy) = (x - ox, y - oy);
                match turns {
                    0 => pixel(&src, dx, dy),
                    1 => pixel(&src, dy, 29 - dx),
                    2 => pixel(&src, 39 - dx, 29 - dy),
                    _ => pixel(&src, 39 - dy, dx),
                }
            } else {
                BLACK
            };
            assert_eq!(pixel(&out, x, y), want);
        }
    }
}

#[test]
fn rotation_by_0_keeps_the_crop() {
    check_rotation(0, 0);
}

#[test]
fn rotation_by_90_turns_the_crop_once() {
    check_rotation(90, 1);
}

#[test]
fn rotation_by_180_turns_the_crop_twice() {
    check_rotation(180, 2);
}

#[test]
fn rotation_by_270_turns_the_crop_thrice() {
    check_rotation(270, 3);
}

#[test]
fn rotation_by_minus_90_turns_the_crop_thrice() {
    check_rotation(-90, 3);
}

#[test]
fn rotation_by_minus_180_turns_the_crop_twice() {
    check_rotation(-180, 2);
}

#[test]
fn rotation_by_minus_270_turns_the_crop_once() {
    check_rotation(-270, 1);
}

#[test]
fn rotation_by_other_angles_keeps_the_crop() {
    check_rotation(45, 0);
    check_rotation(-1, 0);
}

#[test]
fn crop_starts_inside_the_image_when_the_viewport_does() {
    let src = pattern(2000, 1200);
    // The viewport's corner lies 30 right of and 20 below the image's.
    let out = render(&src, &placement(Ratio::one(), -30, -20, 0), Ratio::one()).unwrap();
    for (x, y) in [(0u32, 0u32), (5, 7), (1919, 0), (0, 1079), (1919, 1079), (960, 540)] {
        assert_eq!(pixel(&out, x, y), pixel(&src, x + 30, y + 20));
    }
}

#[test]
fn scaled_rendering_has_the_planned_size() {
    let src = Raster::new(100, 100, [200u8, 100, 50, 255].repeat(100 * 100)).unwrap();
    let out = render(&src, &placement(ratio(2, 1), 300, 300, 0), Ratio::one()).unwrap();
    // The doubled image spans 200 pixels from (250, 250).
    for (x, y) in [(250u32, 250u32), (449, 449), (300, 400), (449, 250)] {
        assert_eq!(pixel(&out, x, y), [200, 100, 50, 255]);
    }
    for (x, y) in [(249u32, 250u32), (450, 449), (250, 450), (0, 0), (1919, 1079)] {
        assert_eq!(pixel(&out, x, y), BLACK);
    }
}

#[test]
fn compose_carries_out_a_plan() {
    let src = pattern(100, 100);
    let plan = plan_viewport(100, 100, &placement(Ratio::one(), 60, 70, 0), Ratio::one()).unwrap();
    let out = compose_plan(&src, &plan);
    assert_eq!(pixel(&out, 60, 70), pixel(&src, 0, 0));
    assert_eq!(pixel(&out, 159, 169), pixel(&src, 99, 99));
    assert_eq!(pixel(&out, 59, 70), BLACK);
    assert_eq!(pixel(&out, 160, 169), BLACK);
}

#[test]
fn render_fails_where_nothing_is_visible() {
    let src = pattern(10, 10);
    let r = render(&src, &placement(Ratio::one(), 2000, 0, 0), Ratio::one());
    assert_eq!(r.err(), Some(GeometryFault::NothingVisible));
    let r = render(&src, &placement(Ratio::one(), -2000, 0, 0), Ratio::one());
    assert_eq!(r.err(), Some(GeometryFault::EmptyCrop));
}

#[test]
fn render_fails_where_the_scale_collapses_the_image() {
    let src = pattern(10, 10);
    let r = render(&src, &placement(ratio(1, 11), 0, 0, 0), Ratio::one());
    assert_eq!(r.err(), Some(GeometryFault::Collapsed));
    let r = render(&src, &placement(ratio(1, 3), 0, 0, 0), ratio(1, 4));
    assert_eq!(r.err(), Some(GeometryFault::Collapsed));
}

#[test]
fn render_fails_on_an_empty_image() {
    let src = Raster::new(0, 0, Vec::new()).unwrap();
    let r = render(&src, &placement(Ratio::one(), 0, 0, 0), Ratio::one());
    assert_eq!(r.err(), Some(GeometryFault::EmptyCrop));
}
