use vstd::prelude::*;
use crate::color::{weighted_dist, color_dist, Color};

verus! {

/// One palette entry: a color, the name of the placeable object it stands
/// for, and whether that object is placed as a tile (unnumbered) or as an
/// entity (numbered).
#[derive(Debug)]
pub struct Tile {
    pub red: u8,
    pub green: u8,
    pub blue: u8,
    pub name: String,
    pub is_tile: bool,
}

/// The mathematical model of a palette entry.
pub ghost struct TileV {
    pub red: u8,
    pub green: u8,
    pub blue: u8,
    pub name: Seq<char>,
    pub is_tile: bool,
}

impl View for Tile {
    type V = TileV;

    open spec fn view(&self) -> TileV {
        TileV {
            red: self.red,
            green: self.green,
            blue: self.blue,
            name: self.name@,
            is_tile: self.is_tile,
        }
    }
}

impl Tile {
    pub fn new(red: u8, green: u8, blue: u8, name: &str, is_tile: bool) -> (t: Tile)
        ensures
            t@ == (TileV { red, green, blue, name: name@, is_tile }),
    {
        Tile { red, green, blue, name: name.to_owned(), is_tile }
    }

    /// The entry's color as an opaque RGBA value.
    pub fn rgba(&self) -> (c: Color)
        ensures
            c == (Color { r: self.red, g: self.green, b: self.blue, a: 255u8 }),
    {
        Color { r: self.red, g: self.green, b: self.blue, a: 255 }
    }
}

/// The entries of the base-game preset palette, in construction order.
pub open spec fn base_game_palette() -> Seq<TileV> {
    seq![
        TileV { red: 47, green: 49, blue: 41, name: "refined-concrete"@, is_tile: true },
        TileV { red: 115, green: 93, blue: 25, name: "refined-hazard-concrete-left"@, is_tile: true },
        TileV { red: 82, green: 81, blue: 74, name: "stone-path"@, is_tile: true },
        TileV { red: 58, green: 61, blue: 58, name: "concrete"@, is_tile: true },
        TileV { red: 181, green: 142, blue: 33, name: "hazard-concrete-left"@, is_tile: true },
        TileV { red: 0, green: 93, blue: 148, name: "wooden-chest"@, is_tile: false },
        TileV { red: 206, green: 158, blue: 66, name: "transport-belt"@, is_tile: false },
        TileV { red: 206, green: 215, blue: 206, name: "stone-wall"@, is_tile: false },
    ]
}

/// The entries of the color-coding preset palette: the base-game entries
/// followed by the colored refined concretes.
pub open spec fn color_coding_palette() -> Seq<TileV> {
    base_game_palette() + seq![
        TileV { red: 100, green: 0, blue: 0, name: "refined-concrete-red"@, is_tile: true },
        TileV { red: 8, green: 97, blue: 19, name: "refined-concrete-green"@, is_tile: true },
        TileV { red: 16, green: 70, blue: 115, name: "refined-concrete-blue"@, is_tile: true },
        TileV { red: 107, green: 61, blue: 16, name: "refined-concrete-orange"@, is_tile: true },
        TileV { red: 107, green: 85, blue: 8, name: "refined-concrete-yellow"@, is_tile: true },
        TileV { red: 115, green: 49, blue: 66, name: "refined-concrete-pink"@, is_tile: true },
        TileV { red: 58, green: 12, blue: 82, name: "refined-concrete-purple"@, is_tile: true },
        TileV { red: 8, green: 12, blue: 8, name: "refined-concrete-black"@, is_tile: true },
        TileV { red: 33, green: 12, blue: 0, name: "refined-concrete-brown"@, is_tile: true },
        TileV { red: 33, green: 97, blue: 90, name: "refined-concrete-cyan"@, is_tile: true },
        TileV { red: 67, green: 97, blue: 16, name: "refined-concrete-acid"@, is_tile: true },
        TileV { red: 123, green: 125, blue: 123, name: "refined-concrete-white"@, is_tile: true },
    ]
}

/// An ordered palette of placeable objects, searched by exact color and by
/// weighted nearest color. The channel weights are configuration: the
/// presets use uniform weights.
pub struct Tileset {
    pub tiles: Vec<Tile>,
    pub weight_red: u32,
    pub weight_green: u32,
    pub weight_blue: u32,
}

impl Tileset {
    /// The ordered sequence of entries, as mathematical values.
    pub open spec fn entries(&self) -> Seq<TileV> {
        self.tiles@.map(|i: int, t: Tile| t@)
    }

    /// Weighted squared distance from a query color to entry `i`.
    pub open spec fn dist_to(&self, c: Color, i: int) -> int {
        weighted_dist(
            self.weight_red,
            self.weight_green,
            self.weight_blue,
            c.r,
            c.g,
            c.b,
            self.entries()[i].red,
            self.entries()[i].green,
            self.entries()[i].blue,
        )
    }

    /// Index of the entry with the least weighted distance to `c` among the
    /// first `n` entries; on ties the earliest entry wins.
    pub open spec fn nearest_index_prefix(&self, c: Color, n: int) -> int
        decreases n,
    {
        if n <= 1 {
            0
        } else {
            let prev = self.nearest_index_prefix(c, n - 1);
            if self.dist_to(c, n - 1) < self.dist_to(c, prev) {
                n - 1
            } else {
                prev
            }
        }
    }

    /// Index of the first entry at the least weighted distance to `c`.
    pub open spec fn nearest_index(&self, c: Color) -> int {
        self.nearest_index_prefix(c, self.entries().len() as int)
    }

    /// Whether entry `i` has exactly the RGB channels of `c`.
    pub open spec fn rgb_matches(&self, c: Color, i: int) -> bool {
        self.entries()[i].red == c.r && self.entries()[i].green == c.g
            && self.entries()[i].blue == c.b
    }

    /// Index of the first entry among the first `n` whose RGB channels equal
    /// those of `c`, or -1 when none matches.
    pub open spec fn rgb_match_index_prefix(&self, c: Color, n: int) -> int
        decreases n,
    {
        if n <= 0 {
            -1
        } else {
            let prev = self.rgb_match_index_prefix(c, n - 1);
            if prev >= 0 {
                prev
            } else if self.rgb_matches(c, n - 1) {
                n - 1
            } else {
                -1
            }
        }
    }

    /// Index of the first entry whose RGB channels equal those of `c`, or
    /// -1 when no entry matches.
    pub open spec fn rgb_match_index(&self, c: Color) -> int {
        self.rgb_match_index_prefix(c, self.entries().len() as int)
    }

    /// What `index_of` reports: an RGBA query matches an entry only when it
    /// is fully opaque, since every entry color carries alpha 255.
    pub open spec fn rgba_match_index(&self, c: Color) -> int {
        if c.a == 255 {
            self.rgb_match_index(c)
        } else {
            -1
        }
    }

    proof fn lemma_rgb_match_index_prefix(&self, c: Color, n: int)
        requires
            0 <= n <= self.entries().len(),
        ensures
            self.rgb_match_index_prefix(c, n) == -1 ==> forall|j: int|
                0 <= j < n ==> !self.rgb_matches(c, j),
            self.rgb_match_index_prefix(c, n) != -1 ==> {
                let m = self.rgb_match_index_prefix(c, n);
                &&& 0 <= m < n
                &&& self.rgb_matches(c, m)
                &&& forall|j: int| 0 <= j < m ==> !self.rgb_matches(c, j)
            },
        decreases n,
    {
        if n > 0 {
            self.lemma_rgb_match_index_prefix(c, n - 1);
        }
    }

    /// The first-match index is -1 exactly when no entry matches; otherwise
    /// it is the least matching index.
    pub proof fn lemma_rgb_match_index(&self, c: Color)
        ensures
            self.rgb_match_index(c) == -1 ==> forall|j: int|
                0 <= j < self.entries().len() ==> !self.rgb_matches(c, j),
            self.rgb_match_index(c) != -1 ==> {
                let m = self.rgb_match_index(c);
                &&& 0 <= m < self.entries().len()
                &&& self.rgb_matches(c, m)
                &&& forall|j: int| 0 <= j < m ==> !self.rgb_matches(c, j)
            },
    {
        self.lemma_rgb_match_index_prefix(c, self.entries().len() as int);
    }

    /// The first-minimum index is valid, no entry is strictly nearer, and
    /// every earlier entry is strictly farther: ties go to the earliest
    /// entry.
    pub proof fn lemma_nearest_index_first_min(&self, c: Color)
        requires
            self.entries().len() > 0,
        ensures
            0 <= self.nearest_index(c) < self.entries().len(),
            forall|j: int|
                0 <= j < self.entries().len() ==> #[trigger] self.dist_to(c, j) >= self.dist_to(
                    c,
                    self.nearest_index(c),
                ),
            forall|j: int|
                0 <= j < self.nearest_index(c) ==> #[trigger] self.dist_to(c, j) > self.dist_to(
                    c,
                    self.nearest_index(c),
                ),
    {
        self.lemma_nearest_index_prefix(c, self.entries().len() as int);
    }

    /// Nearest-search determinism: any index that is valid, at minimal
    /// weighted distance, and strictly nearer than every earlier entry is
    /// the one the search picks, so every conforming search over the same
    /// palette and query returns the same entry.
    pub proof fn lemma_nearest_index_unique(&self, c: Color, i: int)
        requires
            self.entries().len() > 0,
            0 <= i < self.entries().len(),
            forall|j: int|
                0 <= j < self.entries().len() ==> #[trigger] self.dist_to(c, j) >= self.dist_to(
                    c,
                    i,
                ),
            forall|j: int| 0 <= j < i ==> #[trigger] self.dist_to(c, j) > self.dist_to(c, i),
        ensures
            i == self.nearest_index(c),
    {
        self.lemma_nearest_index_first_min(c);
        let m = self.nearest_index(c);
        assert(self.dist_to(c, m) >= self.dist_to(c, i));
        assert(self.dist_to(c, i) >= self.dist_to(c, m));
    }

    /// Exact-lookup correctness: the lookup reports a valid index exactly
    /// when some entry's opaque RGBA color equals the query, and then the
    /// first such entry.
    pub proof fn lemma_index_of_correct(&self, c: Color)
        ensures
            self.rgba_match_index(c) >= 0 <==> exists|j: int|
                0 <= j < self.entries().len() && #[trigger] self.rgb_matches(c, j) && c.a == 255,
            self.rgba_match_index(c) >= 0 ==> {
                let m = self.rgba_match_index(c);
                &&& m < self.entries().len()
                &&& self.rgb_matches(c, m)
                &&& forall|j: int| 0 <= j < m ==> !self.rgb_matches(c, j)
            },
    {
        self.lemma_rgb_match_index(c);
    }

    proof fn lemma_rgb_match_found(&self, c: Color, i: int, n: int)
        requires
            0 <= i < n <= self.entries().len(),
            self.rgb_match_index_prefix(c, i) == -1,
            self.rgb_matches(c, i),
        ensures
            self.rgb_match_index_prefix(c, n) == i,
        decreases n,
    {
        if n > i + 1 {
            self.lemma_rgb_match_found(c, i, n - 1);
        }
    }

    proof fn lemma_nearest_index_prefix(&self, c: Color, n: int)
        requires
            1 <= n <= self.entries().len(),
        ensures
            0 <= self.nearest_index_prefix(c, n) < n,
            forall|j: int|
                0 <= j < n ==> #[trigger] self.dist_to(c, j) >= self.dist_to(
                    c,
                    self.nearest_index_prefix(c, n),
                ),
            forall|j: int|
                0 <= j < self.nearest_index_prefix(c, n) ==> #[trigger] self.dist_to(c, j)
                    > self.dist_to(c, self.nearest_index_prefix(c, n)),
        decreases n,
    {
        if n > 1 {
            self.lemma_nearest_index_prefix(c, n - 1);
        }
    }

    /// A palette over the given entries, with uniform channel weights.
    pub fn from_tiles(tiles: Vec<Tile>) -> (ts: Tileset)
        ensures
            ts.tiles == tiles,
            ts.weight_red == 1 && ts.weight_green == 1 && ts.weight_blue == 1,
    {
        Tileset { tiles, weight_red: 1, weight_green: 1, weight_blue: 1 }
    }

    /// A palette built from rows of (red, green, blue, name, is_tile), in
    /// row order, with uniform channel weights.
    pub fn from_const(rows: &[(u8, u8, u8, &str, bool)]) -> (ts: Tileset)
        ensures
            ts.entries().len() == rows@.len(),
            forall|i: int|
                0 <= i < rows@.len() ==> ts.entries()[i] == (TileV {
                    red: rows@[i].0,
                    green: rows@[i].1,
                    blue: rows@[i].2,
                    name: rows@[i].3@,
                    is_tile: rows@[i].4,
                }),
            ts.weight_red == 1 && ts.weight_green == 1 && ts.weight_blue == 1,
    {
        let mut tiles: Vec<Tile> = Vec::new();
        let mut i: usize = 0;
        while i < rows.len()
            invariant
                i <= rows@.len(),
                tiles@.len() == i,
                forall|j: int|
                    0 <= j < i ==> tiles@[j]@ == (TileV {
                        red: rows@[j].0,
                        green: rows@[j].1,
                        blue: rows@[j].2,
                        name: rows@[j].3@,
                        is_tile: rows@[j].4,
                    }),
            decreases rows@.len() - i,
        {
            let (r, g, b, name, is_tile) = rows[i];
            tiles.push(Tile::new(r, g, b, name, is_tile));
            i += 1;
        }
        Tileset::from_tiles(tiles)
    }

    /// The built-in base-game palette.
    pub fn preset_base_game() -> (ts: Tileset)
        ensures
            ts.entries() == base_game_palette(),
            ts.weight_red == 1 && ts.weight_green == 1 && ts.weight_blue == 1,
    {
        let rows: [(u8, u8, u8, &str, bool); 8] = [
            (47, 49, 41, "refined-concrete", true),
            (115, 93, 25, "refined-hazard-concrete-left", true),
            (82, 81, 74, "stone-path", true),
            (58, 61, 58, "concrete", true),
            (181, 142, 33, "hazard-concrete-left", true),
            (0, 93, 148, "wooden-chest", false),
            (206, 158, 66, "transport-belt", false),
            (206, 215, 206, "stone-wall", false),
        ];
        let ts = Tileset::from_const(rows.as_slice());
        proof {
            assert(ts.entries() =~= base_game_palette());
        }
        ts
    }

    /// The built-in color-coding palette.
    pub fn preset_color_coding() -> (ts: Tileset)
        ensures
            ts.entries() == color_coding_palette(),
            ts.weight_red == 1 && ts.weight_green == 1 && ts.weight_blue == 1,
    {
        let rows: [(u8, u8, u8, &str, bool); 20] = [
            (47, 49, 41, "refined-concrete", true),
            (115, 93, 25, "refined-hazard-concrete-left", true),
            (82, 81, 74, "stone-path", true),
            (58, 61, 58, "concrete", true),
            (181, 142, 33, "hazard-concrete-left", true),
            (0, 93, 148, "wooden-chest", false),
            (206, 158, 66, "transport-belt", false),
            (206, 215, 206, "stone-wall", false),
            (100, 0, 0, "refined-concrete-red", true),
            (8, 97, 19, "refined-concrete-green", true),
            (16, 70, 115, "refined-concrete-blue", true),
            (107, 61, 16, "refined-concrete-orange", true),
            (107, 85, 8, "refined-concrete-yellow", true),
            (115, 49, 66, "refined-concrete-pink", true),
            (58, 12, 82, "refined-concrete-purple", true),
            (8, 12, 8, "refined-concrete-black", true),
            (33, 12, 0, "refined-concrete-brown", true),
            (33, 97, 90, "refined-concrete-cyan", true),
            (67, 97, 16, "refined-concrete-acid", true),
            (123, 125, 123, "refined-concrete-white", true),
        ];
        let ts = Tileset::from_const(rows.as_slice());
        proof {
            assert(ts.entries() =~= color_coding_palette());
        }
        ts
    }

    /// Exact palette lookup: the position of the first entry whose opaque
    /// RGBA color equals the query exactly, else `usize::MAX` as the "not
    /// found" sentinel. Never an error: a miss is an ordinary result.
    pub fn index_of(&self, color: &Color) -> (r: usize)
        ensures
            self.rgba_match_index(*color) >= 0 ==> r == self.rgba_match_index(*color),
            self.rgba_match_index(*color) < 0 ==> r == usize::MAX,
    {
        if color.a != 255 {
            return usize::MAX;
        }
        let mut i: usize = 0;
        while i < self.tiles.len()
            invariant
                i <= self.entries().len(),
                self.rgb_match_index_prefix(*color, i as int) == -1,
                color.a == 255,
            decreases self.entries().len() - i,
        {
            let t = &self.tiles[i];
            if color.r == t.red && color.g == t.green && color.b == t.blue {
                proof {
                    self.lemma_rgb_match_found(*color, i as int, self.entries().len() as int);
                }
                return i;
            }
            i += 1;
        }
        usize::MAX
    }

    /// First entry whose RGB channels equal the query's, ignoring alpha;
    /// `None` when the query color sits on no palette entry.
    pub fn get_matching_tile(&self, color: &Color) -> (r: Option<&Tile>)
        ensures
            match r {
                Some(t) => self.rgb_match_index(*color) >= 0 && t@ == self.entries()[self.rgb_match_index(*color)],
                None => self.rgb_match_index(*color) == -1,
            },
    {
        let mut i: usize = 0;
        while i < self.tiles.len()
            invariant
                i <= self.entries().len(),
                self.rgb_match_index_prefix(*color, i as int) == -1,
            decreases self.entries().len() - i,
        {
            let t = &self.tiles[i];
            if color.r == t.red && color.g == t.green && color.b == t.blue {
                proof {
                    self.lemma_rgb_match_found(*color, i as int, self.entries().len() as int);
                }
                return Some(t);
            }
            i += 1;
        }
        None
    }

    /// The opaque color of the entry nearest to the query under the
    /// palette's channel weights; on ties the earliest entry wins.
    pub fn find_closest_color(&self, color: &Color) -> (r: Color)
        requires
            self.entries().len() > 0,
        ensures
            ({
                let m = self.entries()[self.nearest_index(*color)];
                r == (Color { r: m.red, g: m.green, b: m.blue, a: 255u8 })
            }),
    {
        let mut best_i: usize = 0;
        let mut best_d: u64 = color_dist(
            self.weight_red,
            self.weight_green,
            self.weight_blue,
            *color,
            self.tiles[0].rgba(),
        );
        let mut i: usize = 1;
        while i < self.tiles.len()
            invariant
                1 <= i <= self.entries().len(),
                best_i == self.nearest_index_prefix(*color, i as int),
                0 <= best_i < i,
                best_d == self.dist_to(*color, best_i as int),
            decreases self.entries().len() - i,
        {
            let d: u64 = color_dist(
                self.weight_red,
                self.weight_green,
                self.weight_blue,
                *color,
                self.tiles[i].rgba(),
            );
            if d < best_d {
                best_i = i;
                best_d = d;
            }
            i += 1;
        }
        self.tiles[best_i].rgba()
    }

    /// Replaces the color in place with the nearest palette color, forcing
    /// the alpha channel to fully opaque. The palette must not be empty:
    /// there would be no color to return.
    pub fn map_color(&self, color: &mut Color)
        requires
            self.entries().len() > 0,
        ensures
            ({
                let m = self.entries()[self.nearest_index(*old(color))];
                *final(color) == (Color { r: m.red, g: m.green, b: m.blue, a: 255u8 })
            }),
    {
        let c = *color;
        *color = self.find_closest_color(&c);
    }
}

} // verus!
