use piet_quantize::Color;
use piet_quantize::image_grid::{quantize_image, quantize_pixels, quantize_rgb_buffer, Image};
use piet_quantize::palette::palette;
use piet_quantize::quantizer::{nearest, Quantizer};

fn c(r: u8, g: u8, b: u8) -> Color {
    Color { r, g, b }
}

#[test]
fn nearest_stays_in_palette() {
    let pal = palette();
    let samples = [
        c(0, 0, 0),
        c(255, 255, 255),
        c(1, 2, 3),
        c(200, 100, 50),
        c(0x7F, 0x7F, 0x7F),
        c(13, 255, 90),
        c(254, 1, 128),
    ];
    for s in samples {
        let out = nearest(s);
        assert!(pal.contains(&out));
    }
}

#[test]
fn nearest_deterministic_cold_and_warm() {
    let mut q = Quantizer::new();
    let input = c(17, 130, 200);
    let cold = q.nearest_memo(input);
    let warm = q.nearest_memo(input);
    assert_eq!(cold, warm);
    assert_eq!(cold, nearest(input));
    let mut other = Quantizer::new();
    assert_eq!(other.nearest_memo(input), cold);
}

#[test]
fn tie_breaks_to_lower_palette_index() {
    // (0x60,0,0) is equidistant from dark red (0xC0,0,0) and black (0,0,0);
    // dark red comes earlier in the palette.
    assert_eq!(nearest(c(0x60, 0, 0)), c(0xC0, 0, 0));
    // (0x60,0x60,0x60) is equidistant from all six dark hues and black; the
    // earliest is dark red.
    assert_eq!(nearest(c(0x60, 0x60, 0x60)), c(0xC0, 0, 0));
}

#[test]
fn palette_colors_are_fixed_points() {
    let mut q = Quantizer::new();
    for p in palette() {
        assert_eq!(nearest(p), p);
        assert_eq!(q.nearest_memo(p), p);
    }
}

#[test]
fn quantization_is_idempotent() {
    let mut q = Quantizer::new();
    let pixels = vec![
        c(10, 20, 30),
        c(250, 250, 2),
        c(0x60, 0, 0),
        c(128, 128, 128),
        c(0, 200, 190),
        c(255, 0, 0),
    ];
    let once = quantize_pixels(&mut q, &pixels);
    let twice = quantize_pixels(&mut q, &once);
    assert_eq!(once, twice);
}

#[test]
fn dimensions_are_preserved() {
    let mut q = Quantizer::new();
    let img = Image { width: 3, height: 2, pixels: vec![c(5, 5, 5); 6] };
    let out = quantize_image(&mut q, &img);
    assert_eq!(out.width, 3);
    assert_eq!(out.height, 2);
    assert_eq!(out.pixels.len(), 6);
}

#[test]
fn positions_are_preserved() {
    // Four corners that each map unambiguously to a different palette entry.
    let mut q = Quantizer::new();
    let img = Image {
        width: 2,
        height: 2,
        pixels: vec![c(250, 10, 10), c(10, 250, 10), c(10, 10, 250), c(250, 250, 250)],
    };
    let out = quantize_image(&mut q, &img);
    assert_eq!(out.pixels[0], c(0xFF, 0x00, 0x00)); // red
    assert_eq!(out.pixels[1], c(0x00, 0xFF, 0x00)); // green
    assert_eq!(out.pixels[2], c(0x00, 0x00, 0xFF)); // blue
    assert_eq!(out.pixels[3], c(0xFF, 0xFF, 0xFF)); // white
}

#[test]
fn solid_red_maps_to_palette_red() {
    let mut q = Quantizer::new();
    let img = Image { width: 3, height: 3, pixels: vec![c(255, 0, 0); 9] };
    let out = quantize_image(&mut q, &img);
    assert!(out.pixels.iter().all(|&p| p == c(0xFF, 0x00, 0x00)));
}

#[test]
fn near_black_maps_to_black() {
    let mut q = Quantizer::new();
    let img = Image { width: 2, height: 2, pixels: vec![c(0x10, 0x10, 0x10); 4] };
    let out = quantize_image(&mut q, &img);
    assert!(out.pixels.iter().all(|&p| p == c(0x00, 0x00, 0x00)));
}

#[test]
fn rgb_buffer_quantizes_triple_by_triple() {
    let mut q = Quantizer::new();
    let buf = vec![255, 0, 0, 0x10, 0x10, 0x10];
    let out = quantize_rgb_buffer(&mut q, &buf);
    assert_eq!(out, vec![0xFF, 0x00, 0x00, 0x00, 0x00, 0x00]);
}

#[test]
fn empty_rgb_buffer_stays_empty() {
    let mut q = Quantizer::new();
    let buf: Vec<u8> = Vec::new();
    let out = quantize_rgb_buffer(&mut q, &buf);
    assert!(out.is_empty());
}
