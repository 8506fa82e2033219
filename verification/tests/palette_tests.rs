use factorio_printer::color::Color;
use factorio_printer::dithering::FactorioColorMap;
use factorio_printer::palette::{Tile, Tileset};

fn rgba(r: u8, g: u8, b: u8, a: u8) -> Color {
    Color::new(r, g, b, a)
}

#[test]
fn index_of_finds_first_exact_match() {
    let ts = Tileset::preset_base_game();
    assert_eq!(ts.index_of(&rgba(47, 49, 41, 255)), 0);
    assert_eq!(ts.index_of(&rgba(82, 81, 74, 255)), 2);
    assert_eq!(ts.index_of(&rgba(206, 215, 206, 255)), 7);
}

#[test]
fn index_of_misses_are_the_sentinel() {
    let ts = Tileset::preset_base_game();
    assert_eq!(ts.index_of(&rgba(1, 2, 3, 255)), usize::MAX);
    // entry colors are fully opaque, so a translucent query never matches
    assert_eq!(ts.index_of(&rgba(47, 49, 41, 128)), usize::MAX);
}

#[test]
fn nearest_is_deterministic() {
    let ts = Tileset::preset_color_coding();
    let q = rgba(120, 40, 200, 255);
    let first = ts.find_closest_color(&q);
    for _ in 0..10 {
        assert_eq!(ts.find_closest_color(&q), first);
    }
}

#[test]
fn nearest_tie_goes_to_the_earliest_entry() {
    let tiles = vec![
        Tile::new(0, 0, 0, "first", true),
        Tile::new(0, 0, 10, "second", true),
    ];
    let ts = Tileset::from_tiles(tiles);
    // (0,0,5) is at squared distance 25 from both entries
    let got = ts.find_closest_color(&rgba(0, 0, 5, 255));
    assert_eq!(got, rgba(0, 0, 0, 255));
}

#[test]
fn nearest_picks_the_strictly_closest_entry() {
    let ts = Tileset::preset_base_game();
    // exactly a palette color: distance zero beats everything
    assert_eq!(ts.find_closest_color(&rgba(0, 93, 148, 255)), rgba(0, 93, 148, 255));
}

#[test]
fn map_color_forces_alpha_opaque() {
    let ts = Tileset::preset_base_game();
    let mut c = rgba(0, 92, 149, 7);
    ts.map_color(&mut c);
    assert_eq!(c, rgba(0, 93, 148, 255));
}

#[test]
fn from_const_keeps_row_order() {
    let rows = [
        (1u8, 2u8, 3u8, "one", true),
        (4u8, 5u8, 6u8, "two", false),
    ];
    let ts = Tileset::from_const(&rows);
    assert_eq!(ts.tiles.len(), 2);
    assert_eq!(ts.tiles[0].name, "one");
    assert!(ts.tiles[0].is_tile);
    assert_eq!(ts.tiles[1].blue, 6);
    assert!(!ts.tiles[1].is_tile);
}

#[test]
fn colormap_exact_lookup_uses_the_full_rgba_color() {
    let mut m = FactorioColorMap::new();
    m.add(rgba(1, 2, 3, 4), "thing", false);
    let hit = m.get_fo(&rgba(1, 2, 3, 4)).expect("exact color should match");
    assert_eq!(hit.name, "thing");
    assert!(!hit.is_tile);
    assert!(m.get_fo(&rgba(1, 2, 3, 5)).is_none());
    assert_eq!(m.index_of(&rgba(1, 2, 3, 4)), 0);
    assert_eq!(m.index_of(&rgba(9, 9, 9, 9)), usize::MAX);
}

#[test]
fn colormap_nearest_uses_perceptual_weights() {
    let mut m = FactorioColorMap::new();
    // equally far in raw channel terms, but green differences weigh most
    m.add(rgba(10, 0, 0, 255), "red-ish", true);
    m.add(rgba(0, 10, 0, 255), "green-ish", true);
    let got = m.find_nearest_color(&rgba(0, 0, 0, 255)).expect("palette is not empty");
    assert_eq!(got, rgba(10, 0, 0, 255));
}

#[test]
fn colormap_map_color_forces_alpha_opaque() {
    let mut m = FactorioColorMap::new();
    m.add(rgba(1, 2, 3, 77), "thing", false);
    let mut c = rgba(200, 200, 200, 9);
    m.map_color(&mut c);
    // the entry's RGB channels, with alpha forced opaque regardless of
    // the stored or queried alpha
    assert_eq!(c, rgba(1, 2, 3, 255));
}

#[test]
fn colormap_empty_nearest_is_none() {
    let m = FactorioColorMap::new();
    assert!(m.find_nearest_color(&rgba(0, 0, 0, 0)).is_none());
}
