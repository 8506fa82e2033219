use std::io::Read;

use base64::Engine;
use factorio_printer::codec::export_json;
use factorio_printer::color::Color;
use factorio_printer::palette::{Tile, Tileset};
use factorio_printer::printer::{FactorioBPStringBuilder, PixelGrid};

fn rgba(r: u8, g: u8, b: u8, a: u8) -> Color {
    Color::new(r, g, b, a)
}

fn grid(width: u32, height: u32, pixels: Vec<Color>) -> PixelGrid {
    assert_eq!(pixels.len() as u64, width as u64 * height as u64);
    PixelGrid::new(width, height, pixels)
}

fn uniform_grid(width: u32, height: u32, c: Color) -> PixelGrid {
    grid(width, height, vec![c; (width * height) as usize])
}

fn two_tile_palette() -> Tileset {
    Tileset::from_tiles(vec![
        Tile::new(0, 0, 0, "A", true),
        Tile::new(255, 255, 255, "B", false),
    ])
}

fn decode_export(s: &str) -> serde_json::Value {
    assert!(s.starts_with('0'), "export strings carry the version digit 0");
    let compressed = base64::engine::general_purpose::STANDARD
        .decode(&s[1..])
        .expect("valid base64");
    let mut decoder = flate2::read::ZlibDecoder::new(&compressed[..]);
    let mut json = String::new();
    decoder.read_to_string(&mut json).expect("valid zlib stream");
    serde_json::from_str(&json).expect("valid JSON")
}

#[test]
fn partition_without_split_is_one_cell() {
    let image = uniform_grid(7, 5, rgba(0, 0, 0, 255));
    let alpha = image.extract_alpha();
    let ts = two_tile_palette();
    let b = FactorioBPStringBuilder::new("img", &image, &alpha, &ts).split(0);
    assert_eq!(b.get_total_bp_count(), 1);
    assert_eq!(b.get_bp_split_coords(6, 4), (0, 6, 4));
}

#[test]
fn partition_with_split_maps_pixels_to_cells() {
    let image = uniform_grid(5, 3, rgba(0, 0, 0, 255));
    let alpha = image.extract_alpha();
    let ts = two_tile_palette();
    // cells of side 2: 3 columns x 2 rows of cells
    let b = FactorioBPStringBuilder::new("img", &image, &alpha, &ts).split(2);
    assert_eq!(b.get_total_bp_count(), 6);
    assert_eq!(b.get_bp_split_coords(0, 0), (0, 0, 0));
    assert_eq!(b.get_bp_split_coords(1, 1), (0, 1, 1));
    assert_eq!(b.get_bp_split_coords(2, 0), (1, 0, 0));
    assert_eq!(b.get_bp_split_coords(4, 0), (2, 0, 0));
    assert_eq!(b.get_bp_split_coords(0, 2), (3, 0, 0));
    assert_eq!(b.get_bp_split_coords(4, 2), (5, 0, 0));
}

#[test]
fn every_pixel_lands_in_a_valid_cell() {
    let image = uniform_grid(9, 4, rgba(0, 0, 0, 255));
    let alpha = image.extract_alpha();
    let ts = two_tile_palette();
    let b = FactorioBPStringBuilder::new("img", &image, &alpha, &ts).split(4);
    let total = b.get_total_bp_count() as usize;
    for y in 0..4 {
        for x in 0..9 {
            let (cell, lx, ly) = b.get_bp_split_coords(x, y);
            assert!(cell < total);
            assert!((0..4).contains(&lx));
            assert!((0..4).contains(&ly));
        }
    }
}

#[test]
fn masked_pixels_are_excluded_everywhere() {
    // one black pixel whose mask alpha 50 sits below the threshold 128
    let image = uniform_grid(1, 1, rgba(0, 0, 0, 255));
    let alpha = uniform_grid(1, 1, rgba(0, 0, 0, 50));
    let ts = two_tile_palette();
    let b = FactorioBPStringBuilder::new("img", &image, &alpha, &ts)
        .alpha_threshold(128)
        .split(0);
    let prints = b.make_blueprints().expect("assembly succeeds");
    assert_eq!(prints.len(), 1);
    assert!(prints[0].blueprint.entities.is_empty());
    assert!(prints[0].blueprint.tiles.is_empty());
}

#[test]
fn unmatched_pixel_aborts_with_its_color() {
    let mut pixels = vec![rgba(0, 0, 0, 255), rgba(9, 9, 9, 255)];
    pixels.push(rgba(0, 0, 0, 255));
    let image = grid(3, 1, pixels);
    let alpha = uniform_grid(3, 1, rgba(0, 0, 0, 255));
    let ts = two_tile_palette();
    let b = FactorioBPStringBuilder::new("img", &image, &alpha, &ts).split(0);
    let err = b.make_blueprints().expect_err("pixel (1,0) sits on no palette color");
    assert_eq!(err.color, rgba(9, 9, 9, 255));
    assert_eq!(err.x, 1);
    assert_eq!(err.y, 0);
}

#[test]
fn icon_overflow_zeroes_icons_in_every_cell() {
    // 101 cells across: cell x 100 exists, so icons fall back everywhere
    let image = uniform_grid(101, 1, rgba(0, 0, 0, 255));
    let alpha = image.extract_alpha();
    let ts = two_tile_palette();
    let b = FactorioBPStringBuilder::new("img", &image, &alpha, &ts).split(1);
    assert!(b.icons_overflowed());
    let prints = b.make_blueprints().expect("assembly succeeds");
    assert_eq!(prints.len(), 101);
    for bp in &prints {
        assert_eq!(bp.blueprint.icons.len(), 4);
        for icon in &bp.blueprint.icons {
            assert_eq!(icon.signal.name, "signal-0");
        }
    }
}

#[test]
fn cells_without_overflow_encode_their_coordinates() {
    let image = uniform_grid(2, 2, rgba(0, 0, 0, 255));
    let alpha = image.extract_alpha();
    let ts = two_tile_palette();
    let b = FactorioBPStringBuilder::new("img", &image, &alpha, &ts).split(1);
    assert!(!b.icons_overflowed());
    let prints = b.make_blueprints().expect("assembly succeeds");
    assert_eq!(prints.len(), 4);
    // cell 1 is column 1, row 0: icon integer 100
    let names: Vec<&str> =
        prints[1].blueprint.icons.iter().map(|i| i.signal.name.as_str()).collect();
    assert_eq!(names, ["signal-0", "signal-1", "signal-0", "signal-0"]);
    assert_eq!(prints[1].blueprint.label, "img: x: 1 y: 0");
    // cell 2 is column 0, row 1: icon integer 1
    let names: Vec<&str> =
        prints[2].blueprint.icons.iter().map(|i| i.signal.name.as_str()).collect();
    assert_eq!(names, ["signal-0", "signal-0", "signal-0", "signal-1"]);
}

#[test]
fn single_cell_export_is_a_blueprint() {
    let image = uniform_grid(2, 2, rgba(0, 0, 0, 255));
    let alpha = image.extract_alpha();
    let ts = two_tile_palette();
    let b = FactorioBPStringBuilder::new("img", &image, &alpha, &ts).split(0);
    let s = b.factorio_serialize().expect("export succeeds");
    let v = decode_export(&s);
    let obj = v.as_object().unwrap();
    assert!(obj.contains_key("blueprint"));
    assert!(!obj.contains_key("blueprint_book"));
}

#[test]
fn four_cell_export_is_a_book_with_indexed_entries() {
    let image = uniform_grid(2, 2, rgba(0, 0, 0, 255));
    let alpha = image.extract_alpha();
    let ts = two_tile_palette();
    let b = FactorioBPStringBuilder::new("img", &image, &alpha, &ts).split(1);
    let s = b.factorio_serialize().expect("export succeeds");
    let v = decode_export(&s);
    let obj = v.as_object().unwrap();
    assert!(obj.contains_key("blueprint_book"));
    let slots = v["blueprint_book"]["blueprints"].as_array().unwrap();
    assert_eq!(slots.len(), 4);
    for (k, slot) in slots.iter().enumerate() {
        assert_eq!(slot["index"], k as i64);
    }
}

#[test]
fn end_to_end_two_pixel_scenario() {
    // a 2x1 image: one black tile pixel, one white entity pixel
    let image = grid(2, 1, vec![rgba(0, 0, 0, 255), rgba(255, 255, 255, 255)]);
    let alpha = uniform_grid(2, 1, rgba(0, 0, 0, 255));
    let ts = two_tile_palette();
    let b = FactorioBPStringBuilder::new("img", &image, &alpha, &ts)
        .alpha_threshold(1)
        .split(0);
    let prints = b.make_blueprints().expect("assembly succeeds");
    assert_eq!(prints.len(), 1);
    let bp = &prints[0].blueprint;
    assert_eq!(bp.tiles.len(), 1);
    assert_eq!(bp.tiles[0].name, "A");
    assert_eq!(bp.tiles[0].position.x, 0);
    assert_eq!(bp.tiles[0].position.y, 0);
    assert_eq!(bp.entities.len(), 1);
    assert_eq!(bp.entities[0].name, "B");
    assert_eq!(bp.entities[0].entity_number, 1);
    assert_eq!(bp.entities[0].position.x, 1);
    assert_eq!(bp.entities[0].position.y, 0);
    let s = b.factorio_serialize().expect("export succeeds");
    assert!(s.starts_with('0'));
}

#[test]
fn export_carries_exactly_the_library_json() {
    let image = grid(2, 1, vec![rgba(0, 0, 0, 255), rgba(255, 255, 255, 255)]);
    let alpha = uniform_grid(2, 1, rgba(0, 0, 0, 255));
    let ts = two_tile_palette();
    let b = FactorioBPStringBuilder::new("img", &image, &alpha, &ts).split(0);
    let s = b.factorio_serialize().expect("export succeeds");
    let compressed = base64::engine::general_purpose::STANDARD
        .decode(&s[1..])
        .expect("valid base64");
    let mut decoder = flate2::read::ZlibDecoder::new(&compressed[..]);
    let mut json = String::new();
    decoder.read_to_string(&mut json).expect("valid zlib stream");
    let prints = b.make_blueprints().expect("assembly succeeds");
    let expected = factorio_printer::json::blueprint_to_json(&prints[0]);
    assert_eq!(json, expected);
}

#[test]
fn book_export_keeps_the_source_label() {
    let image = uniform_grid(2, 2, rgba(0, 0, 0, 255));
    let alpha = image.extract_alpha();
    let ts = two_tile_palette();
    let b = FactorioBPStringBuilder::new("my image", &image, &alpha, &ts).split(1);
    let book = b.make_book().expect("assembly succeeds");
    assert_eq!(book.blueprint_book.label, "my image");
    assert_eq!(book.blueprint_book.blueprints.len(), 4);
    let s = b.factorio_serialize().expect("export succeeds");
    let v = decode_export(&s);
    assert_eq!(v["blueprint_book"]["label"], "my image");
    assert_eq!(v["blueprint_book"]["blueprints"][3]["blueprint"]["label"], "my image: x: 1 y: 1");
}

#[test]
fn zero_cell_partition_exports_an_empty_book() {
    // a zero-width image under a positive split yields no cells at all
    let image = grid(0, 2, vec![]);
    let alpha = image.extract_alpha();
    let ts = two_tile_palette();
    let b = FactorioBPStringBuilder::new("img", &image, &alpha, &ts).split(1);
    assert_eq!(b.get_total_bp_count(), 0);
    let s = b.factorio_serialize().expect("export succeeds");
    let v = decode_export(&s);
    let slots = v["blueprint_book"]["blueprints"].as_array().unwrap();
    assert!(slots.is_empty());
}

#[test]
fn export_round_trips_through_the_codec() {
    let text = "{\"hello\":[1,2,3]}";
    let s = export_json(text).expect("export succeeds");
    let v = decode_export(&s);
    assert_eq!(v["hello"].as_array().unwrap().len(), 3);
}

#[test]
fn apply_alpha_restores_the_saved_channel() {
    let mut image = grid(2, 1, vec![rgba(10, 20, 30, 200), rgba(40, 50, 60, 9)]);
    let saved = image.extract_alpha();
    assert_eq!(saved.get(0, 0), rgba(0, 0, 0, 200));
    assert_eq!(saved.get(1, 0), rgba(0, 0, 0, 9));
    // pretend dithering overwrote the alpha channel
    let mut flattened = grid(2, 1, vec![rgba(10, 20, 30, 255), rgba(40, 50, 60, 255)]);
    flattened.apply_alpha(&saved);
    assert_eq!(flattened.get(0, 0), rgba(10, 20, 30, 200));
    assert_eq!(flattened.get(1, 0), rgba(40, 50, 60, 9));
    image.apply_alpha(&saved);
    assert_eq!(image.get(0, 0), rgba(10, 20, 30, 200));
}
