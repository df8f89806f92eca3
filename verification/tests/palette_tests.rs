use landmass::palette::{Palette, Rgba};

const WATER: Rgba = Rgba { r: 10, g: 10, b: 80, a: 255 };
const SAND: Rgba = Rgba { r: 150, g: 150, b: 50, a: 255 };
const GRASS: Rgba = Rgba { r: 50, g: 150, b: 50, a: 255 };
const FOREST: Rgba = Rgba { r: 30, g: 120, b: 30, a: 255 };
const HIGHLAND: Rgba = Rgba { r: 150, g: 75, b: 30, a: 255 };
const ROCK: Rgba = Rgba { r: 130, g: 55, b: 20, a: 255 };
const SNOW: Rgba = Rgba { r: 255, g: 255, b: 255, a: 255 };

#[test]
fn generated_palette_has_256_rows() {
    let p = Palette::generate();
    assert_eq!(p.height(), 256);
}

#[test]
fn generated_palette_bands() {
    let p = Palette::generate();
    assert_eq!(p.row(255), WATER);
    assert_eq!(p.row(254), SAND);
    assert_eq!(p.row(250), SAND);
    assert_eq!(p.row(249), GRASS);
    assert_eq!(p.row(215), GRASS);
    assert_eq!(p.row(214), FOREST);
    assert_eq!(p.row(175), FOREST);
    assert_eq!(p.row(174), HIGHLAND);
    assert_eq!(p.row(125), HIGHLAND);
    assert_eq!(p.row(124), ROCK);
    assert_eq!(p.row(95), ROCK);
    assert_eq!(p.row(94), SNOW);
    assert_eq!(p.row(0), SNOW);
}

#[test]
fn height_zero_maps_to_lowest_row_color() {
    let p = Palette::generate();
    assert_eq!(p.map_color(0.0f32.to_bits()), WATER);
    assert_eq!(p.map_color((-0.0f32).to_bits()), WATER);
}

#[test]
fn height_255_maps_to_highest_row_color() {
    let p = Palette::generate();
    assert_eq!(p.map_color(255.0f32.to_bits()), SNOW);
    assert_eq!(p.map_color(1000.0f32.to_bits()), SNOW);
    assert_eq!(p.map_color(f32::INFINITY.to_bits()), SNOW);
}

#[test]
fn row_selection_is_monotonic_in_height() {
    let p = Palette::generate();
    // Walk heights upward and check the selected row index never grows.
    let mut prev_row: i32 = 255;
    let mut h: f32 = 0.0;
    while h < 300.0 {
        let clamped = h.max(0.0).min(255.0) as i32;
        let row = 255 - clamped;
        let c = p.map_color(h.to_bits());
        assert_eq!(c, p.row(row as u32), "h = {h}");
        assert!(row <= prev_row, "h = {h}");
        prev_row = row;
        h += 0.1;
    }
}

#[test]
fn fractional_heights_floor_to_a_row() {
    let p = Palette::generate();
    // 0.9 floors to 0 and still reads the bottom row; 1.2 reads row 254.
    assert_eq!(p.map_color(0.9f32.to_bits()), WATER);
    assert_eq!(p.map_color(1.2f32.to_bits()), SAND);
}
