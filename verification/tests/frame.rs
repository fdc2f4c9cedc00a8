use fractals_wasm::error::ConfigError;
use fractals_wasm::frame::{magnify, transform};

type Rgb = (u8, u8, u8);

const RED: Rgb = (255, 0, 0);
const GREEN: Rgb = (0, 255, 0);
const BLUE: Rgb = (0, 0, 255);
const GREY: Rgb = (10, 20, 30);

fn pixel(image: &[u8], out_width: usize, x: usize, y: usize) -> [u8; 4] {
    let at = 4 * (out_width * y + x);
    [image[at], image[at + 1], image[at + 2], image[at + 3]]
}

#[test]
fn unscaled_grid_is_copied_pixel_by_pixel() {
    let image = magnify(&vec![RED, GREEN, BLUE, GREY], 2, 2, 1).unwrap();
    assert_eq!(
        image,
        vec![255, 0, 0, 255, 0, 255, 0, 255, 0, 0, 255, 255, 10, 20, 30, 255]
    );
}

#[test]
fn two_by_two_grid_scaled_by_two_is_written_row_by_row() {
    let image = magnify(&vec![RED, GREEN, BLUE, GREY], 2, 2, 2).unwrap();
    let r = [255, 0, 0, 255];
    let g = [0, 255, 0, 255];
    let b = [0, 0, 255, 255];
    let k = [10, 20, 30, 255];
    let rows = [[r, r, g, g], [r, r, g, g], [b, b, k, k], [b, b, k, k]];
    let expected: Vec<u8> = rows.iter().flatten().flatten().copied().collect();
    assert_eq!(image, expected);
}

#[test]
fn two_by_two_grid_fills_solid_blocks_at_every_scaling() {
    let colors = vec![RED, GREEN, BLUE, GREY];
    for s in 1..=5usize {
        let image = magnify(&colors, 2, 2, s).unwrap();
        assert_eq!(image.len(), 4 * (2 * s) * (2 * s));
        for y in 0..2 * s {
            for x in 0..2 * s {
                let (red, green, blue) = colors[2 * (y / s) + x / s];
                assert_eq!(pixel(&image, 2 * s, x, y), [red, green, blue, 255]);
            }
        }
    }
}

#[test]
fn wide_grid_keeps_rows_apart() {
    let colors: Vec<Rgb> = (0..6u8).map(|k| (k, 10 + k, 20 + k)).collect();
    let image = magnify(&colors, 3, 2, 2).unwrap();
    assert_eq!(image.len(), 4 * 6 * 4);
    assert_eq!(pixel(&image, 6, 5, 0), [2, 12, 22, 255]);
    assert_eq!(pixel(&image, 6, 0, 2), [3, 13, 23, 255]);
    assert_eq!(pixel(&image, 6, 3, 3), [4, 14, 24, 255]);
}

#[test]
fn alpha_is_always_opaque() {
    let colors: Vec<Rgb> = (0..12u8).map(|k| (k, k, k)).collect();
    let image = magnify(&colors, 4, 3, 3).unwrap();
    assert!(image.chunks(4).all(|px| px[3] == 255));
}

#[test]
fn zero_scaling_gives_an_empty_buffer() {
    assert_eq!(magnify(&vec![RED, GREEN], 2, 1, 0), Ok(vec![]));
}

#[test]
fn empty_grid_gives_an_empty_buffer() {
    assert_eq!(magnify(&vec![], 0, 7, 3), Ok(vec![]));
    assert_eq!(magnify(&vec![], 7, 0, 3), Ok(vec![]));
}

#[test]
fn wrong_number_of_colours_is_rejected() {
    assert_eq!(magnify(&vec![RED, GREEN, BLUE], 2, 2, 1), Err(ConfigError::PointCountMismatch));
    assert_eq!(
        magnify(&vec![RED, GREEN, BLUE, GREY, RED], 2, 2, 1),
        Err(ConfigError::PointCountMismatch)
    );
    assert_eq!(magnify(&vec![RED], 0, 0, 1), Err(ConfigError::PointCountMismatch));
}

#[test]
fn grid_too_large_to_count_is_rejected() {
    assert_eq!(magnify(&vec![RED], usize::MAX, 2, 1), Err(ConfigError::PointCountMismatch));
    let colored = transform(vec![1u8], 50, usize::MAX, usize::MAX, 1, |_, _| RED);
    assert_eq!(colored, Err(ConfigError::PointCountMismatch));
}

#[test]
fn transform_colours_each_point_and_magnifies() {
    let image = transform(vec![3usize, 50, 7, 50], 50, 2, 2, 2, |iterations: &usize, cap| {
        if *iterations == cap {
            (0, 0, 0)
        } else {
            (*iterations as u8, 1, 2)
        }
    })
    .unwrap();
    assert_eq!(image.len(), 64);
    assert_eq!(pixel(&image, 4, 0, 0), [3, 1, 2, 255]);
    assert_eq!(pixel(&image, 4, 1, 1), [3, 1, 2, 255]);
    assert_eq!(pixel(&image, 4, 2, 0), [0, 0, 0, 255]);
    assert_eq!(pixel(&image, 4, 1, 3), [7, 1, 2, 255]);
    assert_eq!(pixel(&image, 4, 3, 3), [0, 0, 0, 255]);
}

#[test]
fn transform_agrees_with_magnify_of_the_colours() {
    let points = vec![5u8, 6, 7, 8, 9, 10];
    let color = |p: &u8, cap: usize| (*p, p.wrapping_mul(3), cap as u8);
    let colors: Vec<Rgb> = points.iter().map(|p| color(p, 40)).collect();
    assert_eq!(transform(points, 40, 3, 2, 4, color), magnify(&colors, 3, 2, 4));
}

#[test]
fn transform_colours_every_point_once() {
    let calls = std::cell::Cell::new(0usize);
    let image = transform(vec![(); 6], 50, 3, 2, 4, |_, _| {
        calls.set(calls.get() + 1);
        GREY
    })
    .unwrap();
    assert_eq!(calls.get(), 6);
    assert_eq!(image.len(), 4 * 12 * 8);
}

#[test]
fn transform_rejects_a_wrong_point_count_before_colouring() {
    let calls = std::cell::Cell::new(0usize);
    let colored = transform(vec![1u8, 2, 3], 50, 2, 2, 1, |_, _| {
        calls.set(calls.get() + 1);
        RED
    });
    assert_eq!(colored, Err(ConfigError::PointCountMismatch));
    assert_eq!(calls.get(), 0);
}
