use fixmyhalo::canvas::Canvas;
use fixmyhalo::engine::{dilate, dilate_step, find_neighbor_color, process_image};
use fixmyhalo::texel::Texel;
use image::{DynamicImage, Rgb, RgbImage, Rgba, RgbaImage};

const RED: Texel = Texel { r: 255, g: 0, b: 0, a: 255 };
const GREEN: Texel = Texel { r: 0, g: 255, b: 0, a: 255 };
const BLUE: Texel = Texel { r: 0, g: 0, b: 255, a: 9 };
const CLEAR: Texel = Texel { r: 0, g: 0, b: 0, a: 0 };

fn canvas(width: u32, height: u32, pixels: &[(u32, u32, Texel)]) -> Canvas {
    let mut made = Canvas::new(width, height).unwrap();
    for &(x, y, p) in pixels {
        assert!(made.put(x, y, p));
    }
    made
}

fn same(a: &Canvas, b: &Canvas) -> bool {
    if a.width() != b.width() || a.height() != b.height() {
        return false;
    }
    for y in 0..a.height() {
        for x in 0..a.width() {
            if a.get(x, y) != b.get(x, y) {
                return false;
            }
        }
    }
    true
}

#[test]
fn test_find_neighbor_color() {
    // [ T, T, T ]
    // [ T, T, C ]
    // [ T, T, T ]
    let img = canvas(3, 3, &[(2, 1, RED)]);

    let found = find_neighbor_color(&img, 1, 1, 3, 3);
    assert_eq!(found, Some(RED));

    let found = find_neighbor_color(&img, 0, 0, 3, 3);
    assert_eq!(found, None);
}

#[test]
fn test_dilation_step() {
    // [ T, C, T ]
    // [ T, T, T ]
    // [ T, T, T ]
    let img = canvas(3, 3, &[(1, 0, RED)]);

    let next = dilate_step(&img, 3, 3);

    assert_eq!(next.get(1, 0), Some(RED));
    assert_eq!(next.get(0, 0), Some(RED));
    assert_eq!(next.get(2, 0), Some(RED));
    assert_eq!(next.get(1, 1), Some(RED));
}

#[test]
fn test_process_image_padding() {
    let mut img = RgbaImage::new(5, 5);
    let red = Rgba([255, 0, 0, 255]);
    let transparent_red = Rgba([255, 0, 0, 0]);
    img.put_pixel(2, 2, red);

    let dynamic = DynamicImage::ImageRgba8(img);

    let res1 = process_image(dynamic.clone(), 1);
    let buf1 = res1.to_rgba8();
    assert_eq!(buf1.get_pixel(2, 1), &transparent_red, "1 step should reach (2,1) with hidden color");
    assert_eq!(
        buf1.get_pixel(2, 0).0,
        [0, 0, 0, 0],
        "1 step should NOT reach (2,0)"
    );

    let res2 = process_image(dynamic, 2);
    let buf2 = res2.to_rgba8();
    assert_eq!(buf2.get_pixel(2, 0), &transparent_red, "2 steps should reach (2,0) with hidden color");
}

#[test]
fn step_leaves_its_input_alone() {
    let img = canvas(3, 3, &[(1, 0, RED)]);
    let next = dilate_step(&img, 3, 3);
    assert_eq!(img.get(0, 0), Some(CLEAR));
    assert_eq!(img.get(1, 0), Some(RED));
    assert_eq!(next.get(0, 0), Some(RED));
    // The diagonal neighbours of the donor are reached in the same step.
    assert_eq!(next.get(0, 1), Some(RED));
    assert_eq!(next.get(2, 1), Some(RED));
    // The bottom row is two steps away.
    assert_eq!(next.get(1, 2), Some(CLEAR));
}

#[test]
fn step_does_not_cascade() {
    // A row of five with a donor at the left end: one step reaches one
    // pixel, whatever the order in which the pixels are visited.
    let img = canvas(5, 1, &[(0, 0, RED)]);
    let next = dilate_step(&img, 5, 1);
    assert_eq!(next.get(1, 0), Some(RED));
    assert_eq!(next.get(2, 0), Some(CLEAR));
    let img = canvas(5, 1, &[(4, 0, RED)]);
    let next = dilate_step(&img, 5, 1);
    assert_eq!(next.get(3, 0), Some(RED));
    assert_eq!(next.get(2, 0), Some(CLEAR));
}

#[test]
fn left_neighbour_wins_over_right() {
    let img = canvas(3, 1, &[(0, 0, GREEN), (2, 0, RED)]);
    assert_eq!(find_neighbor_color(&img, 1, 0, 3, 1), Some(GREEN));
}

#[test]
fn neighbours_are_asked_in_the_fixed_order() {
    let a = Texel { r: 1, g: 0, b: 0, a: 1 };
    let order = [(0, 1), (2, 1), (1, 0), (1, 2), (0, 0), (2, 0), (0, 2), (2, 2)];
    // With the first `k` neighbours transparent, the `k`-th one donates.
    for k in 0..8 {
        let mut pixels = Vec::new();
        for (i, &(x, y)) in order.iter().enumerate().skip(k) {
            let p = Texel { r: i as u8 + 10, ..a };
            pixels.push((x, y, p));
        }
        let img = canvas(3, 3, &pixels);
        let expected = Texel { r: k as u8 + 10, ..a };
        assert_eq!(find_neighbor_color(&img, 1, 1, 3, 3), Some(expected));
    }
}

#[test]
fn donor_gives_its_alpha_within_a_step() {
    // A step copies the whole value, alpha included.
    let img = canvas(2, 1, &[(0, 0, BLUE)]);
    let next = dilate_step(&img, 2, 1);
    assert_eq!(next.get(1, 0), Some(BLUE));
    // Dilation restores the alpha afterwards.
    let out = dilate(&img, 1);
    assert_eq!(out.get(1, 0), Some(Texel { a: 0, ..BLUE }));
    assert_eq!(out.get(0, 0), Some(BLUE));
}

#[test]
fn neighbours_outside_the_window_are_skipped() {
    let img = canvas(3, 3, &[(2, 1, RED)]);
    // Inside a window of two columns the donor in the third is not seen.
    assert_eq!(find_neighbor_color(&img, 1, 1, 2, 3), None);
    let next = dilate_step(&img, 2, 3);
    assert!(same(&next, &img));
    // A corner has three neighbours inside the buffer.
    let img = canvas(2, 2, &[(1, 1, GREEN)]);
    assert_eq!(find_neighbor_color(&img, 0, 0, 2, 2), Some(GREEN));
}

#[test]
fn coordinates_far_outside_find_nothing() {
    let img = canvas(2, 2, &[(0, 0, RED), (1, 1, RED)]);
    assert_eq!(find_neighbor_color(&img, u32::MAX, u32::MAX, 2, 2), None);
    assert_eq!(find_neighbor_color(&img, 2, 0, 2, 2), Some(RED));
}

#[test]
fn opaque_image_is_unchanged() {
    let mut pixels = Vec::new();
    for y in 0..3u32 {
        for x in 0..4u32 {
            pixels.push((x, y, Texel { r: x as u8, g: y as u8, b: 7, a: 1 + (x + y) as u8 }));
        }
    }
    let img = canvas(4, 3, &pixels);
    for padding in [0, 1, 2, 8] {
        assert!(same(&dilate(&img, padding), &img));
    }
}

#[test]
fn zero_padding_is_identity() {
    let img = canvas(3, 2, &[(0, 0, RED), (2, 1, BLUE), (1, 1, Texel { r: 5, g: 6, b: 7, a: 0 })]);
    let out = dilate(&img, 0);
    assert!(same(&out, &img));
}

#[test]
fn donors_and_alpha_are_kept() {
    let hidden = Texel { r: 5, g: 6, b: 7, a: 0 };
    let img = canvas(4, 4, &[(0, 0, RED), (3, 3, BLUE), (1, 2, hidden)]);
    let out = dilate(&img, 3);
    assert_eq!(out.get(0, 0), Some(RED));
    assert_eq!(out.get(3, 3), Some(BLUE));
    for y in 0..4 {
        for x in 0..4 {
            assert_eq!(out.get(x, y).unwrap().a, img.get(x, y).unwrap().a);
        }
    }
    // The hidden colour of a transparent pixel is replaced: after one step
    // its right neighbour holds blue, its left neighbour nothing yet.
    assert_eq!(out.get(1, 2), Some(Texel { a: 0, ..BLUE }));
    assert_eq!(out.get(1, 1), Some(Texel { a: 0, ..RED }));
}

#[test]
fn lone_donor_bleeds_by_the_padding() {
    let img = canvas(9, 7, &[(4, 3, GREEN)]);
    for padding in 0..6u32 {
        let out = dilate(&img, padding);
        for y in 0..7u32 {
            for x in 0..9u32 {
                let distance = (x as i64 - 4).abs().max((y as i64 - 3).abs());
                let expected = if x == 4 && y == 3 {
                    GREEN
                } else if distance <= padding as i64 {
                    Texel { a: 0, ..GREEN }
                } else {
                    CLEAR
                };
                assert_eq!(out.get(x, y), Some(expected));
            }
        }
    }
}

#[test]
fn empty_images_are_unchanged() {
    for (w, h) in [(0, 0), (0, 5), (5, 0)] {
        let img = Canvas::new(w, h).unwrap();
        let out = dilate(&img, 3);
        assert_eq!(out.width(), w);
        assert_eq!(out.height(), h);
        assert_eq!(out.get(0, 0), None);
        let step = dilate_step(&img, w, h);
        assert_eq!((step.width(), step.height()), (w, h));
    }
}

#[test]
fn canvas_is_blank_and_bounded() {
    let mut img = Canvas::new(2, 3).unwrap();
    assert_eq!((img.width(), img.height()), (2, 3));
    assert_eq!(img.get(1, 2), Some(CLEAR));
    assert_eq!(img.get(2, 0), None);
    assert_eq!(img.get(0, 3), None);
    assert!(!img.put(2, 0, RED));
    assert!(!img.put(0, 3, RED));
    assert!(img.put(1, 2, RED));
    assert_eq!(img.get(1, 2), Some(RED));
    assert_eq!(img.get(0, 2), Some(CLEAR));
    assert_eq!(img.get(1, 1), Some(CLEAR));
}

#[test]
fn canvas_too_large_is_refused() {
    assert!(Canvas::new(u32::MAX, u32::MAX).is_none());
}

#[test]
fn texel_channels_round_trip() {
    let p = Texel::from_channels([1, 2, 3, 4]);
    assert_eq!(p, Texel { r: 1, g: 2, b: 3, a: 4 });
    assert_eq!(p.channels(), [1, 2, 3, 4]);
    assert!(!p.is_transparent());
    assert!(CLEAR.is_transparent());
    assert_eq!(p.restore_alpha(&CLEAR), Texel { r: 1, g: 2, b: 3, a: 0 });
}

#[test]
fn image_without_alpha_is_read_as_opaque() {
    let mut img = RgbImage::new(2, 2);
    img.put_pixel(0, 0, Rgb([10, 20, 30]));
    img.put_pixel(1, 1, Rgb([40, 50, 60]));
    let out = process_image(DynamicImage::ImageRgb8(img), 4).to_rgba8();
    assert_eq!(out.dimensions(), (2, 2));
    assert_eq!(out.get_pixel(0, 0), &Rgba([10, 20, 30, 255]));
    assert_eq!(out.get_pixel(1, 1), &Rgba([40, 50, 60, 255]));
    assert_eq!(out.get_pixel(1, 0), &Rgba([0, 0, 0, 255]));
}

#[test]
fn processed_image_is_rgba() {
    let mut img = RgbaImage::new(3, 1);
    img.put_pixel(0, 0, Rgba([9, 8, 7, 6]));
    let out = process_image(DynamicImage::ImageRgba8(img), 1);
    assert!(matches!(out, DynamicImage::ImageRgba8(_)));
    let buf = out.to_rgba8();
    assert_eq!(buf.get_pixel(0, 0), &Rgba([9, 8, 7, 6]));
    assert_eq!(buf.get_pixel(1, 0), &Rgba([9, 8, 7, 0]));
    assert_eq!(buf.get_pixel(2, 0), &Rgba([0, 0, 0, 0]));
}
