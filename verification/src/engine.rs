//! The dilation engine: it reads and writes `image` buffers and is proved
//! to compute what `dilation` states.

use vstd::prelude::*;
use image::DynamicImage;
use crate::canvas::{canvas_height, canvas_pixels, canvas_width, copy_of, height_of, into_dynamic, pixel_at, rgba_rendering, set_pixel, to_rgba8, width_of, Canvas};
use crate::dilation::{dilated, donor_from, full_window_step, neighbor, neighbor_color, neighbor_offsets, step, step_pixel, steps, with_alpha_of, NEIGHBOR_OFFSETS};
use crate::laws::steps_keep_size;
use crate::raster::grid;
use crate::texel::Texel;

verus! {

/// Looks for a neighbour of `(x, y)` that is not fully transparent, inside
/// the top-left `w` by `h` pixels of `img`, and returns the first one in the
/// order of `NEIGHBOR_OFFSETS`.
pub fn find_neighbor_color(img: &Canvas, x: u32, y: u32, w: u32, h: u32) -> (found: Option<Texel>)
    requires
        w <= img@.width,
        h <= img@.height,
    ensures
        found == neighbor_color(img@.window(w as nat, h as nat), x as int, y as int),
        w == img@.width && h == img@.height ==> found == neighbor_color(img@, x as int, y as int),
{
    let ghost win = img@.window(w as nat, h as nat);
    proof {
        if w == img@.width && h == img@.height {
            full_window_step(img@);
        }
    }
    let mut k: usize = 0;
    while k < 8
        invariant
            k <= 8,
            w <= canvas_width(*img),
            h <= canvas_height(*img),
            win == img@.window(w as nat, h as nat),
            w == img@.width && h == img@.height ==> win == img@,
            neighbor_color(win, x as int, y as int) == donor_from(win, x as int, y as int, k as int),
        decreases 8 - k,
    {
        let (dx, dy) = NEIGHBOR_OFFSETS[k];
        assert(dx == neighbor_offsets()[k as int].0 && dy == neighbor_offsets()[k as int].1);
        let nx: i64 = x as i64 + dx as i64;
        let ny: i64 = y as i64 + dy as i64;
        assert((nx as int, ny as int) == neighbor(x as int, y as int, k as int));
        if nx >= 0 && nx < w as i64 && ny >= 0 && ny < h as i64 {
            let candidate = pixel_at(img, nx as u32, ny as u32);
            assert(grid(w as nat, h as nat).contains((nx as int, ny as int)));
            assert(win.at(nx as int, ny as int) == candidate);
            if candidate.a > 0 {
                return Some(candidate);
            }
        }
        k += 1;
    }
    None
}

/// One dilation step over the top-left `width` by `height` pixels of `img`.
/// The result is a new buffer: every lookup reads `img`, so a colour
/// travels by one pixel per step and no further.
pub fn dilate_step(img: &Canvas, width: u32, height: u32) -> (next: Canvas)
    requires
        width <= img@.width,
        height <= img@.height,
    ensures
        next@ == img@.patched(step(img@.window(width as nat, height as nat))),
        width == img@.width && height == img@.height ==> next@ == step(img@),
{
    let ghost win = img@.window(width as nat, height as nat);
    proof {
        if width == img@.width && height == img@.height {
            full_window_step(img@);
        }
    }
    let mut next = copy_of(img);
    let mut x: u32 = 0;
    while x < width
        invariant
            x <= width,
            width <= canvas_width(*img),
            height <= canvas_height(*img),
            win == img@.window(width as nat, height as nat),
            canvas_width(next) == canvas_width(*img),
            canvas_height(next) == canvas_height(*img),
            forall|cx: int, cy: int|
                0 <= cx < canvas_width(*img) && 0 <= cy < canvas_height(*img) ==> #[trigger] canvas_pixels(
                    next,
                )[(cx, cy)] == if cx < x && cy < height {
                    step_pixel(win, cx, cy)
                } else {
                    canvas_pixels(*img)[(cx, cy)]
                },
        decreases width - x,
    {
        let mut y: u32 = 0;
        while y < height
            invariant
                x < width,
                y <= height,
                width <= canvas_width(*img),
                height <= canvas_height(*img),
                win == img@.window(width as nat, height as nat),
                canvas_width(next) == canvas_width(*img),
                canvas_height(next) == canvas_height(*img),
                forall|cx: int, cy: int|
                    0 <= cx < canvas_width(*img) && 0 <= cy < canvas_height(*img) ==> #[trigger] canvas_pixels(
                        next,
                    )[(cx, cy)] == if (cx < x && cy < height) || (cx == x && cy < y) {
                        step_pixel(win, cx, cy)
                    } else {
                        canvas_pixels(*img)[(cx, cy)]
                    },
            decreases height - y,
        {
            let pixel = pixel_at(img, x, y);
            assert(grid(width as nat, height as nat).contains((x as int, y as int)));
            assert(win.at(x as int, y as int) == pixel);
            if pixel.a == 0 {
                if let Some(color) = find_neighbor_color(img, x, y, width, height) {
                    set_pixel(&mut next, x, y, color);
                }
            }
            y += 1;
        }
        x += 1;
    }
    assert(next@ =~= img@.patched(step(win)));
    next
}

/// Dilates `source` by `padding` steps and then gives every pixel the
/// alpha that it had in `source`: the shape stays, and only the colour of
/// transparent pixels can differ from the input.
pub fn dilate(source: &Canvas, padding: u32) -> (out: Canvas)
    ensures
        out@ == dilated(source@, padding as nat),
{
    let width = width_of(source);
    let height = height_of(source);
    let mut buffer = copy_of(source);
    assert(buffer@ =~= source@);
    let mut done: u32 = 0;
    while done < padding
        invariant
            done <= padding,
            width == canvas_width(*source),
            height == canvas_height(*source),
            buffer@ == steps(source@, done as nat),
        decreases padding - done,
    {
        proof {
            steps_keep_size(source@, done as nat);
            full_window_step(buffer@);
        }
        buffer = dilate_step(&buffer, width, height);
        done += 1;
    }
    let ghost bled = buffer@;
    proof {
        steps_keep_size(source@, padding as nat);
    }
    let mut y: u32 = 0;
    while y < height
        invariant
            y <= height,
            width == canvas_width(*source),
            height == canvas_height(*source),
            bled.width == width,
            bled.height == height,
            bled.wf(),
            canvas_width(buffer) == width,
            canvas_height(buffer) == height,
            forall|cx: int, cy: int|
                0 <= cx < width && 0 <= cy < height ==> #[trigger] canvas_pixels(buffer)[(cx, cy)]
                    == if cy < y {
                    bled.at(cx, cy).with_alpha_of(source@.at(cx, cy))
                } else {
                    bled.at(cx, cy)
                },
        decreases height - y,
    {
        let mut x: u32 = 0;
        while x < width
            invariant
                y < height,
                x <= width,
                width == canvas_width(*source),
                height == canvas_height(*source),
                bled.width == width,
                bled.height == height,
                bled.wf(),
                canvas_width(buffer) == width,
                canvas_height(buffer) == height,
                forall|cx: int, cy: int|
                    0 <= cx < width && 0 <= cy < height ==> #[trigger] canvas_pixels(buffer)[(
                        cx,
                        cy,
                    )] == if cy < y || (cy == y && cx < x) {
                        bled.at(cx, cy).with_alpha_of(source@.at(cx, cy))
                    } else {
                        bled.at(cx, cy)
                    },
            decreases width - x,
        {
            let shape = pixel_at(source, x, y);
            let color = pixel_at(&buffer, x, y);
            assert(grid(width as nat, height as nat).contains((x as int, y as int)));
            set_pixel(&mut buffer, x, y, color.restore_alpha(&shape));
            x += 1;
        }
        y += 1;
    }
    assert(buffer@ =~= with_alpha_of(bled, source@));
    buffer
}

/// Dilates an image of any pixel format: the image is read as 8-bit RGBA,
/// dilated, and handed back as an 8-bit RGBA image. What was read is a
/// well-formed raster, so the laws of dilation hold of it.
pub fn process_image(img: DynamicImage, padding: u32) -> (out: DynamicImage)
    ensures
        rgba_rendering(img).wf(),
        rgba_rendering(out) == dilated(rgba_rendering(img), padding as nat),
{
    let source = to_rgba8(&img);
    let fixed = dilate(&source, padding);
    into_dynamic(fixed)
}

} // verus!
