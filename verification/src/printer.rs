use vstd::prelude::*;
use vstd::string::StringExecFns;
use vstd::arithmetic::div_mod::{
    lemma_div_is_ordered, lemma_div_plus_one, lemma_div_pos_is_pos,
    lemma_mod_division_less_than_divisor,
};
use vstd::arithmetic::div_mod::lemma_multiply_divide_lt;
use crate::color::Color;
use crate::palette::Tileset;
use crate::schema::{
    BlueprintV, BookV, EntityV, PlacedTileV, FactorioBlueprint, FactorioBook, icons_of,
};
use crate::text::{dec_str, i32_to_string};
use crate::json::{json_of_blueprint, json_of_book, blueprint_to_json, book_to_json};
use crate::codec::{export_of, export_json, zlib_of, CodecError};
use vstd::utf8::encode_utf8;

verus! {

/// The models of a sequence of blueprint records.
pub open spec fn blueprint_views(s: Seq<FactorioBlueprint>) -> Seq<BlueprintV> {
    s.map(|i: int, b: FactorioBlueprint| b@)
}

/// The diagnostic of a fatal assembly failure: a pixel whose quantized
/// color sits on no palette entry, meaning the image was not dithered
/// against this palette.
#[derive(Clone, Copy, PartialEq, Eq, Structural, Debug)]
pub struct AssemblyError {
    pub color: Color,
    pub x: u32,
    pub y: u32,
}

/// Why an export failed.
#[derive(Clone, Copy, PartialEq, Eq, Structural, Debug)]
pub enum ExportError {
    /// A pixel's color sits on no palette entry.
    Assembly(AssemblyError),
    /// The compressed stream is too long to base64-encode.
    TooLarge,
}

/// A rectangular grid of RGBA pixels, rows stored top to bottom, each row
/// left to right.
pub struct PixelGrid {
    pub width: u32,
    pub height: u32,
    pub pixels: Vec<Color>,
}

impl PixelGrid {
    /// The pixel buffer holds exactly one color per coordinate.
    pub open spec fn wf(self) -> bool {
        self.pixels@.len() == self.width * self.height
    }

    /// The pixel at column `x`, row `y`.
    pub open spec fn pixel_at(self, x: int, y: int) -> Color {
        self.pixels@[y * self.width + x]
    }

    pub fn new(width: u32, height: u32, pixels: Vec<Color>) -> (g: PixelGrid)
        requires
            pixels@.len() == width * height,
        ensures
            g == (PixelGrid { width, height, pixels }),
            g.wf(),
    {
        PixelGrid { width, height, pixels }
    }

    pub fn dimensions(&self) -> (d: (u32, u32))
        ensures
            d.0 == self.width && d.1 == self.height,
    {
        (self.width, self.height)
    }

    /// The image's alpha layer: a grid of the same shape whose every
    /// pixel is black and carries the original pixel's alpha channel.
    pub fn extract_alpha(&self) -> (r: PixelGrid)
        requires
            self.wf(),
        ensures
            r.wf(),
            r.width == self.width,
            r.height == self.height,
            r.pixels@.len() == self.pixels@.len(),
            forall|i: int|
                0 <= i < self.pixels@.len() ==> #[trigger] r.pixels@[i] == (Color {
                    r: 0u8,
                    g: 0u8,
                    b: 0u8,
                    a: self.pixels@[i].a,
                }),
    {
        let mut pixels: Vec<Color> = Vec::new();
        let n: usize = self.pixels.len();
        let mut i: usize = 0;
        while i < n
            invariant
                n == self.pixels@.len(),
                i <= n,
                pixels@.len() == i,
                forall|j: int|
                    0 <= j < i ==> #[trigger] pixels@[j] == (Color {
                        r: 0u8,
                        g: 0u8,
                        b: 0u8,
                        a: self.pixels@[j].a,
                    }),
            decreases n - i,
        {
            let p = self.pixels[i];
            pixels.push(Color { r: 0, g: 0, b: 0, a: p.a });
            i += 1;
        }
        PixelGrid { width: self.width, height: self.height, pixels }
    }

    /// Writes the alpha layer's alpha channels back over this image's
    /// pixels, leaving the color channels as they are.
    pub fn apply_alpha(&mut self, alpha: &PixelGrid)
        requires
            old(self).wf(),
            alpha.wf(),
            alpha.width == old(self).width,
            alpha.height == old(self).height,
        ensures
            final(self).wf(),
            final(self).width == old(self).width,
            final(self).height == old(self).height,
            final(self).pixels@.len() == old(self).pixels@.len(),
            forall|i: int|
                0 <= i < old(self).pixels@.len() ==> #[trigger] final(self).pixels@[i] == (Color {
                    a: alpha.pixels@[i].a,
                    ..old(self).pixels@[i]
                }),
    {
        let n: usize = self.pixels.len();
        let mut i: usize = 0;
        while i < n
            invariant
                n == self.pixels@.len(),
                n == old(self).pixels@.len(),
                n == alpha.pixels@.len(),
                i <= n,
                self.width == old(self).width,
                self.height == old(self).height,
                forall|j: int|
                    i <= j < n ==> #[trigger] self.pixels@[j] == old(self).pixels@[j],
                forall|j: int|
                    0 <= j < i ==> #[trigger] self.pixels@[j] == (Color {
                        a: alpha.pixels@[j].a,
                        ..old(self).pixels@[j]
                    }),
            decreases n - i,
        {
            let p = self.pixels[i];
            let m = alpha.pixels[i];
            self.pixels[i] = Color { a: m.a, ..p };
            i += 1;
        }
    }

    pub fn get(&self, x: u32, y: u32) -> (c: Color)
        requires
            self.wf(),
            x < self.width,
            y < self.height,
        ensures
            c == self.pixel_at(x as int, y as int),
    {
        let n: usize = self.pixels.len();
        proof {
            assert((y as int) * (self.width as int) + (x as int) < (self.width as int) * (
            self.height as int) && 0 <= (y as int) * (self.width as int)) by (nonlinear_arith)
                requires
                    x < self.width,
                    y < self.height,
            ;
        }
        let idx: usize = (y as usize) * (self.width as usize) + (x as usize);
        self.pixels[idx]
    }
}

/// How many cells a side of `len` pixels splits into, with cells of side
/// `s`: the rounded-up quotient.
pub open spec fn ceil_div(len: int, s: int) -> int {
    (len + s - 1) / s
}

/// Builds the export string of one image: it walks the quantized pixels,
/// applies the alpha mask, partitions the image into square cells of the
/// split side, assembles one blueprint per cell and serializes the result.
pub struct FactorioBPStringBuilder<'a> {
    pub label: String,
    pub image: &'a PixelGrid,
    pub alpha: &'a PixelGrid,
    pub tileset: &'a Tileset,
    pub alpha_threshold: u8,
    pub split: i32,
    pub split_count_x: i32,
    pub split_count_y: i32,
}

impl<'a> FactorioBPStringBuilder<'a> {
    /// Both grids share one shape, and the split counts agree with the
    /// split side: one single cell without a split, else the rounded-up
    /// quotients of the image sides.
    pub open spec fn wf(self) -> bool {
        &&& self.image.wf()
        &&& self.alpha.wf()
        &&& self.alpha.width == self.image.width
        &&& self.alpha.height == self.image.height
        &&& if self.split <= 0 {
            self.split_count_x == 1 && self.split_count_y == 1
        } else {
            self.split_count_x == ceil_div(self.image.width as int, self.split as int)
                && self.split_count_y == ceil_div(self.image.height as int, self.split as int)
        }
    }

    /// How many cells the partition yields.
    pub open spec fn total_count(self) -> int {
        self.split_count_x * self.split_count_y
    }

    /// The cell that holds global pixel (x, y).
    pub open spec fn cell_index_of(self, x: int, y: int) -> int {
        if self.split <= 0 {
            0
        } else {
            x / (self.split as int) + (y / (self.split as int)) * (self.split_count_x as int)
        }
    }

    /// The pixel's column within its cell.
    pub open spec fn local_x_of(self, x: int) -> int {
        if self.split <= 0 {
            x
        } else {
            x % (self.split as int)
        }
    }

    /// The pixel's row within its cell.
    pub open spec fn local_y_of(self, y: int) -> int {
        if self.split <= 0 {
            y
        } else {
            y % (self.split as int)
        }
    }

    /// A builder over a quantized image, its original alpha mask and the
    /// palette both were made with: alpha threshold 128 and no split until
    /// configured otherwise.
    pub fn new(
        label: &str,
        image: &'a PixelGrid,
        alpha: &'a PixelGrid,
        tileset: &'a Tileset,
    ) -> (r: FactorioBPStringBuilder<'a>)
        requires
            image.wf(),
            alpha.wf(),
            alpha.width == image.width,
            alpha.height == image.height,
        ensures
            r.label@ == label@,
            r.image == image,
            r.alpha == alpha,
            r.tileset == tileset,
            r.alpha_threshold == 128,
            r.split == 0,
            r.split_count_x == 1,
            r.split_count_y == 1,
            r.wf(),
    {
        FactorioBPStringBuilder {
            label: label.to_owned(),
            image,
            alpha,
            tileset,
            alpha_threshold: 128,
            split: 0,
            split_count_x: 1,
            split_count_y: 1,
        }
    }

    /// Sets the alpha threshold: pixels whose mask alpha is below it are
    /// skipped.
    pub fn alpha_threshold(self, value: u8) -> (r: FactorioBPStringBuilder<'a>)
        ensures
            r == (FactorioBPStringBuilder { alpha_threshold: value, ..self }),
    {
        FactorioBPStringBuilder { alpha_threshold: value, ..self }
    }

    /// Sets the split side and recomputes the cell counts. A side of zero
    /// or less means no split: one cell covers the whole image. The cell
    /// counts must fit the builder's fields, which bounds the image sides
    /// for a positive split side.
    pub fn split(self, value: i32) -> (r: FactorioBPStringBuilder<'a>)
        requires
            value >= 1 ==> ceil_div(self.image.width as int, value as int) <= i32::MAX
                && ceil_div(self.image.height as int, value as int) <= i32::MAX,
        ensures
            r == (FactorioBPStringBuilder {
                split: value,
                split_count_x: if value <= 0 {
                    1
                } else {
                    ceil_div(self.image.width as int, value as int) as i32
                },
                split_count_y: if value <= 0 {
                    1
                } else {
                    ceil_div(self.image.height as int, value as int) as i32
                },
                ..self
            }),
            self.image.wf() && self.alpha.wf() && self.alpha.width == self.image.width
                && self.alpha.height == self.image.height ==> r.wf(),
    {
        if value <= 0 {
            FactorioBPStringBuilder { split: value, split_count_x: 1, split_count_y: 1, ..self }
        } else {
            let w: u64 = self.image.width as u64;
            let h: u64 = self.image.height as u64;
            let s: u64 = value as u64;
            let scx: u64 = (w + s - 1) / s;
            let scy: u64 = (h + s - 1) / s;
            FactorioBPStringBuilder {
                split: value,
                split_count_x: scx as i32,
                split_count_y: scy as i32,
                ..self
            }
        }
    }

    /// The split counts are nonnegative, and positive when the matching
    /// image side is.
    pub proof fn lemma_split_counts(self)
        requires
            self.wf(),
        ensures
            self.split_count_x >= 0,
            self.split_count_y >= 0,
            self.image.width > 0 ==> self.split_count_x >= 1,
            self.image.height > 0 ==> self.split_count_y >= 1,
    {
        if self.split > 0 {
            let s = self.split as int;
            lemma_div_pos_is_pos(self.image.width + s - 1, s);
            lemma_div_pos_is_pos(self.image.height + s - 1, s);
            if self.image.width > 0 {
                lemma_div_is_ordered(s, self.image.width + s - 1, s);
                assert(s / s == 1) by (nonlinear_arith)
                    requires
                        s >= 1,
                ;
            }
            if self.image.height > 0 {
                lemma_div_is_ordered(s, self.image.height + s - 1, s);
                assert(s / s == 1) by (nonlinear_arith)
                    requires
                        s >= 1,
                ;
            }
        }
    }

    /// Every pixel of the image falls in exactly one cell: its cell index
    /// is a function of its coordinates and lies in the valid range, and
    /// its local coordinates lie inside the cell's square.
    pub proof fn lemma_partition_coverage(self, x: int, y: int)
        requires
            self.wf(),
            0 <= x < self.image.width,
            0 <= y < self.image.height,
        ensures
            0 <= self.cell_index_of(x, y) < self.total_count(),
            self.split > 0 ==> 0 <= self.local_x_of(x) < self.split && 0 <= self.local_y_of(y)
                < self.split,
            self.split <= 0 ==> self.local_x_of(x) == x && self.local_y_of(y) == y,
    {
        if self.split <= 0 {
        } else {
            let s = self.split as int;
            let w = self.image.width as int;
            let h = self.image.height as int;
            let scx = self.split_count_x as int;
            let scy = self.split_count_y as int;
            let qx = x / s;
            let qy = y / s;
            lemma_div_pos_is_pos(x, s);
            lemma_div_pos_is_pos(y, s);
            lemma_div_is_ordered(x, w - 1, s);
            lemma_div_is_ordered(y, h - 1, s);
            lemma_div_plus_one(w - 1, s);
            lemma_div_plus_one(h - 1, s);
            assert(scx == (w - 1) / s + 1);
            assert(scy == (h - 1) / s + 1);
            assert(qx <= scx - 1);
            assert(qy <= scy - 1);
            assert(qx + qy * scx < scx * scy) by (nonlinear_arith)
                requires
                    0 <= qx <= scx - 1,
                    0 <= qy <= scy - 1,
                    scx >= 1,
            ;
            lemma_mod_division_less_than_divisor(x, s);
            lemma_mod_division_less_than_divisor(y, s);
        }
    }

    /// How many pixels the image holds.
    pub open spec fn npix(self) -> int {
        self.image.width * self.image.height
    }

    /// The column of the pixel at row-major position `i`.
    pub open spec fn pixel_x(self, i: int) -> int {
        i % (self.image.width as int)
    }

    /// The row of the pixel at row-major position `i`.
    pub open spec fn pixel_y(self, i: int) -> int {
        i / (self.image.width as int)
    }

    /// Whether the pixel at position `i` survives the alpha mask.
    pub open spec fn included(self, i: int) -> bool {
        self.alpha.pixels@[i].a >= self.alpha_threshold
    }

    /// The palette position of the pixel's quantized color, by exact RGB
    /// match; -1 when the color sits on no entry.
    pub open spec fn match_of(self, i: int) -> int {
        self.tileset.rgb_match_index(self.image.pixels@[i])
    }

    /// The cell that holds the pixel at position `i`.
    pub open spec fn cell_of_pixel(self, i: int) -> int {
        self.cell_index_of(self.pixel_x(i), self.pixel_y(i))
    }

    /// The label of cell `c`: the source label tagged with the cell's
    /// column and row in cell units.
    pub open spec fn label_of(self, c: int) -> Seq<char> {
        self.label@ + ": x: "@ + dec_str(c % (self.split_count_x as int)) + " y: "@ + dec_str(
            c / (self.split_count_x as int),
        )
    }

    /// Whether some cell's coordinates cannot be icon-encoded; the
    /// fallback then disables per-cell icons for every cell at once.
    pub open spec fn icons_overflow(self) -> bool {
        self.total_count() > 0 && (self.split_count_x > 100 || self.split_count_y > 100)
    }

    /// The icon integer of cell `c`: its column times 100 plus its row,
    /// or zero for every cell when any cell overflows.
    pub open spec fn icon_value_of(self, c: int) -> int {
        if self.icons_overflow() {
            0
        } else {
            (c % (self.split_count_x as int)) * 100 + c / (self.split_count_x as int)
        }
    }

    /// The assembly's starting state: one blueprint per cell, labeled and
    /// icon-tagged, with no placements yet.
    pub open spec fn init_prints(self) -> Seq<BlueprintV> {
        Seq::new(
            self.total_count() as nat,
            |c: int| BlueprintV {
                item: "blueprint"@,
                label: self.label_of(c),
                entities: Seq::empty(),
                tiles: Seq::empty(),
                icons: icons_of(self.icon_value_of(c)),
                entity_counter: 1,
            },
        )
    }

    /// One step of the pixel walk: a masked pixel changes nothing; a
    /// surviving pixel is appended to its cell's blueprint, as a numbered
    /// entity or an unnumbered tile after its palette entry.
    pub open spec fn assemble_step(self, state: Seq<BlueprintV>, i: int) -> Seq<BlueprintV> {
        if !self.included(i) {
            state
        } else {
            let m = self.match_of(i);
            let entry = self.tileset.entries()[m];
            let cell = self.cell_of_pixel(i);
            let lx = self.local_x_of(self.pixel_x(i));
            let ly = self.local_y_of(self.pixel_y(i));
            let bp = state[cell];
            if entry.is_tile {
                state.update(
                    cell,
                    BlueprintV {
                        tiles: bp.tiles.push(PlacedTileV { name: entry.name, x: lx, y: ly }),
                        ..bp
                    },
                )
            } else {
                state.update(
                    cell,
                    BlueprintV {
                        entities: bp.entities.push(
                            EntityV { number: bp.entity_counter, name: entry.name, x: lx, y: ly },
                        ),
                        entity_counter: bp.entity_counter + 1,
                        ..bp
                    },
                )
            }
        }
    }

    /// The assembly state after the first `n` pixels of the row-major
    /// walk.
    pub open spec fn assemble_prefix(self, n: int) -> Seq<BlueprintV>
        decreases n,
    {
        if n <= 0 {
            self.init_prints()
        } else {
            self.assemble_step(self.assemble_prefix(n - 1), n - 1)
        }
    }

    /// Whether every surviving pixel among the first `n` sits exactly on
    /// a palette color.
    pub open spec fn assembly_ok_upto(self, n: int) -> bool {
        forall|i: int| 0 <= i < n ==> (self.included(i) ==> #[trigger] self.match_of(i) >= 0)
    }

    /// Whether the whole assembly succeeds: every surviving pixel sits
    /// exactly on a palette color.
    pub open spec fn assembly_ok(self) -> bool {
        self.assembly_ok_upto(self.npix())
    }

    /// The position of the first surviving pixel among the first `n` that
    /// sits on no palette color, or -1 when there is none.
    pub open spec fn first_unmatched(self, n: int) -> int
        decreases n,
    {
        if n <= 0 {
            -1
        } else {
            let p = self.first_unmatched(n - 1);
            if p >= 0 {
                p
            } else if self.included(n - 1) && self.match_of(n - 1) == -1 {
                n - 1
            } else {
                -1
            }
        }
    }

    proof fn lemma_first_unmatched_found(self, i: int, n: int)
        requires
            0 <= i < n,
            self.first_unmatched(i) == -1,
            self.included(i),
            self.match_of(i) == -1,
        ensures
            self.first_unmatched(n) == i,
        decreases n,
    {
        if n > i + 1 {
            self.lemma_first_unmatched_found(i, n - 1);
        }
    }

    proof fn lemma_pixel_coords(self, i: int)
        requires
            self.wf(),
            0 <= i < self.npix(),
        ensures
            0 <= self.pixel_x(i) < self.image.width,
            0 <= self.pixel_y(i) < self.image.height,
            0 <= self.cell_of_pixel(i) < self.total_count(),
    {
        let w = self.image.width as int;
        let h = self.image.height as int;
        assert(w >= 1 && h >= 1) by (nonlinear_arith)
            requires
                w >= 0,
                h >= 0,
                w * h > i >= 0,
        ;
        lemma_mod_division_less_than_divisor(i, w);
        lemma_div_pos_is_pos(i, w);
        assert(i < w * h) by (nonlinear_arith)
            requires
                i < w * h,
        ;
        lemma_multiply_divide_lt(i, w, h);
        self.lemma_partition_coverage(self.pixel_x(i), self.pixel_y(i));
    }

    /// Invariants of the assembly state after `n` pixels: one blueprint
    /// per cell; labels, icons and the item kind as at the start; in each
    /// cell the entity numbers run 1..N in insertion order and the counter
    /// holds N+1; and no cell holds more placements than pixels walked.
    pub proof fn lemma_assemble_prefix_props(self, n: int)
        requires
            self.wf(),
            0 <= n <= self.npix(),
        ensures
            self.assemble_prefix(n).len() == self.total_count(),
            forall|c: int|
                0 <= c < self.total_count() ==> {
                    let bp = #[trigger] self.assemble_prefix(n)[c];
                    &&& bp.item == "blueprint"@
                    &&& bp.label == self.label_of(c)
                    &&& bp.icons == icons_of(self.icon_value_of(c))
                    &&& bp.entity_counter == bp.entities.len() + 1
                    &&& bp.entities.len() + bp.tiles.len() <= n
                    &&& forall|k: int|
                        0 <= k < bp.entities.len() ==> #[trigger] bp.entities[k].number == k + 1
                },
        decreases n,
    {
        if n == 0 {
        } else {
            self.lemma_assemble_prefix_props(n - 1);
            if self.included(n - 1) {
                self.lemma_pixel_coords(n - 1);
            }
        }
    }

    /// Entity numbering: within each cell's blueprint, after any prefix of
    /// the pixel walk, the entity numbers form the sequence 1..N in the
    /// exact order the pixels were scanned.
    pub proof fn lemma_entity_numbering(self)
        requires
            self.wf(),
        ensures
            forall|c: int|
                0 <= c < self.total_count() ==> {
                    let bp = #[trigger] self.assemble_prefix(self.npix())[c];
                    forall|k: int|
                        0 <= k < bp.entities.len() ==> #[trigger] bp.entities[k].number == k + 1
                },
    {
        self.lemma_assemble_prefix_props(self.npix());
    }

    /// Alpha masking: a pixel whose mask alpha lies below the threshold
    /// leaves the whole assembly state unchanged, whatever its quantized
    /// color.
    pub proof fn lemma_masked_pixel_excluded(self, state: Seq<BlueprintV>, i: int)
        requires
            self.alpha.pixels@[i].a < self.alpha_threshold,
        ensures
            self.assemble_step(state, i) == state,
    {
    }

    /// Icon-overflow fallback: when any cell's coordinates cannot be
    /// icon-encoded, every cell of the finished assembly carries the
    /// all-zero icons, not just the overflowing one.
    pub proof fn lemma_icon_overflow_fallback(self)
        requires
            self.wf(),
            self.icons_overflow(),
        ensures
            forall|c: int|
                0 <= c < self.total_count() ==> (#[trigger] self.assemble_prefix(
                    self.npix(),
                )[c]).icons == icons_of(0),
    {
        self.lemma_assemble_prefix_props(self.npix());
    }

    /// The cell and local coordinates of a global pixel.
    pub fn get_bp_split_coords(&self, x: i32, y: i32) -> (r: (usize, i32, i32))
        requires
            self.wf(),
            0 <= x < self.image.width,
            0 <= y < self.image.height,
            self.total_count() <= usize::MAX,
        ensures
            r.0 == self.cell_index_of(x as int, y as int),
            r.1 == self.local_x_of(x as int),
            r.2 == self.local_y_of(y as int),
            r.0 < self.total_count(),
    {
        proof {
            self.lemma_partition_coverage(x as int, y as int);
        }
        if self.split <= 0 {
            (0, x, y)
        } else {
            let split_x = x % self.split;
            let split_y = y % self.split;
            let vec_idx_x: i64 = (x / self.split) as i64;
            let vec_idx_y: i64 = (y / self.split) as i64;
            proof {
                assert(0 <= vec_idx_y * (self.split_count_x as int)
                    <= 0x7fffffffi64 * 0x7fffffffi64) by (nonlinear_arith)
                    requires
                        0 <= vec_idx_y <= 0x7fffffffi64,
                        0 <= self.split_count_x <= 0x7fffffffi64,
                ;
            }
            let vec_index: i64 = vec_idx_x + vec_idx_y * (self.split_count_x as i64);
            (vec_index as usize, split_x, split_y)
        }
    }

    /// How many blueprints the partition yields.
    pub fn get_total_bp_count(&self) -> (r: i32)
        requires
            self.wf(),
            self.total_count() <= i32::MAX,
        ensures
            r == self.total_count(),
            r >= 0,
    {
        proof {
            self.lemma_split_counts();
            assert(self.split_count_x * self.split_count_y >= 0) by (nonlinear_arith)
                requires
                    self.split_count_x >= 0,
                    self.split_count_y >= 0,
            ;
        }
        let r: i64 = (self.split_count_x as i64) * (self.split_count_y as i64);
        r as i32
    }

    /// The label of the cell at column `x`, row `y` in cell units.
    fn make_cell_label(&self, x: i32, y: i32) -> (r: String)
        ensures
            r@ == self.label@ + ": x: "@ + dec_str(x as int) + " y: "@ + dec_str(y as int),
    {
        let mut l = self.label.clone();
        l.append(": x: ");
        let xs = i32_to_string(x);
        l.append(xs.as_str());
        l.append(" y: ");
        let ys = i32_to_string(y);
        l.append(ys.as_str());
        proof {
            assert(l@ =~= self.label@ + ": x: "@ + dec_str(x as int) + " y: "@ + dec_str(
                y as int,
            ));
        }
        l
    }

    /// Whether this partition triggers the icon fallback; the caller may
    /// surface the warning.
    pub fn icons_overflowed(&self) -> (r: bool)
        requires
            self.wf(),
            self.total_count() <= i32::MAX,
        ensures
            r == self.icons_overflow(),
    {
        let total: i32 = self.get_total_bp_count();
        total > 0 && (self.split_count_x > 100 || self.split_count_y > 100)
    }

    /// Walks the pixels and assembles one blueprint per cell, in row-major
    /// cell order: labels and icons are set first (the icon fallback is
    /// decided over the whole set), then every pixel surviving the alpha
    /// mask is appended to its cell, as a numbered entity or an unnumbered
    /// tile after its palette entry. Fails exactly when a surviving
    /// pixel's quantized color sits on no palette entry, identifying that
    /// pixel; no partial result is handed out.
    pub fn make_blueprints(&self) -> (r: Result<Vec<FactorioBlueprint>, AssemblyError>)
        requires
            self.wf(),
            self.total_count() <= i32::MAX,
            self.npix() < i32::MAX,
        ensures
            match r {
                Ok(prints) => self.assembly_ok() && blueprint_views(prints@)
                    == self.assemble_prefix(self.npix()),
                Err(e) => {
                    let i = self.first_unmatched(self.npix());
                    &&& !self.assembly_ok()
                    &&& 0 <= i < self.npix()
                    &&& e.color == self.image.pixels@[i]
                    &&& e.x == self.pixel_x(i)
                    &&& e.y == self.pixel_y(i)
                },
            },
    {
        let total: i32 = self.get_total_bp_count();
        let scx: i32 = self.split_count_x;
        let scy: i32 = self.split_count_y;
        let overflow: bool = total > 0 && (scx > 100 || scy > 100);
        let mut prints: Vec<FactorioBlueprint> = Vec::new();
        let mut i: i32 = 0;
        while i < total
            invariant
                self.wf(),
                0 <= i <= total,
                total == self.total_count(),
                scx == self.split_count_x,
                scy == self.split_count_y,
                overflow == self.icons_overflow(),
                blueprint_views(prints@) == self.init_prints().take(i as int),
                prints@.len() == i,
            decreases total - i,
        {
            proof {
                assert(scx >= 1 && scy >= 1) by (nonlinear_arith)
                    requires
                        scx as int * scy as int > i >= 0,
                        scx >= 0,
                        scy >= 0,
                ;
            }
            let x: i32 = i % scx;
            let y: i32 = i / scx;
            let mut bp = FactorioBlueprint::new();
            bp.set_label(self.make_cell_label(x, y));
            if overflow {
                bp.set_icons(0);
            } else {
                proof {
                    lemma_mod_division_less_than_divisor(i as int, scx as int);
                    lemma_div_pos_is_pos(i as int, scx as int);
                    lemma_multiply_divide_lt(i as int, scx as int, scy as int);
                }
                bp.set_icons(x * 100 + y);
            }
            prints.push(bp);
            proof {
                lemma_mod_division_less_than_divisor(i as int, scx as int);
                lemma_div_pos_is_pos(i as int, scx as int);
                assert(bp@ == self.init_prints()[i as int]);
                assert(blueprint_views(prints@) =~= self.init_prints().take(i as int + 1));
            }
            i += 1;
        }
        proof {
            assert(self.init_prints().take(total as int) =~= self.init_prints());
        }
        let npix: usize = self.image.pixels.len();
        let w_us: usize = self.image.width as usize;
        let mut k: usize = 0;
        while k < npix
            invariant
                self.wf(),
                npix == self.npix(),
                npix < i32::MAX,
                w_us == self.image.width,
                total == self.total_count(),
                total <= i32::MAX,
                k <= npix,
                self.assembly_ok_upto(k as int),
                self.first_unmatched(k as int) == -1,
                blueprint_views(prints@) == self.assemble_prefix(k as int),
                prints@.len() == total,
            decreases npix - k,
        {
            proof {
                assert(w_us >= 1 && self.image.height >= 1) by (nonlinear_arith)
                    requires
                        w_us as int * (self.image.height as int) > k >= 0,
                        w_us >= 0,
                        self.image.height >= 0,
                        w_us == self.image.width,
                        self.npix() == self.image.width * self.image.height,
                        npix == self.npix(),
                        k < npix,
                ;
                assert(w_us <= npix && self.image.height <= npix) by (nonlinear_arith)
                    requires
                        npix == w_us as int * (self.image.height as int),
                        w_us >= 1,
                        self.image.height >= 1,
                ;
                self.lemma_pixel_coords(k as int);
            }
            let x_us: usize = k % w_us;
            let y_us: usize = k / w_us;
            let a: u8 = self.alpha.pixels[k].a;
            if a >= self.alpha_threshold {
                let c: Color = self.image.pixels[k];
                match self.tileset.get_matching_tile(&c) {
                    None => {
                        proof {
                            self.lemma_first_unmatched_found(k as int, self.npix());
                            assert(self.included(k as int) && self.match_of(k as int) == -1);
                        }
                        return Err(
                            AssemblyError { color: c, x: x_us as u32, y: y_us as u32 },
                        );
                    },
                    Some(tile) => {
                        let (idx, lx, ly) = self.get_bp_split_coords(x_us as i32, y_us as i32);
                        proof {
                            self.lemma_assemble_prefix_props(k as int);
                            assert(blueprint_views(prints@)[idx as int] == prints@[idx as int]@);
                        }
                        if tile.is_tile {
                            prints[idx].add_tile(tile.name.as_str(), lx, ly);
                        } else {
                            prints[idx].add_entity(tile.name.as_str(), lx, ly);
                        }
                        proof {
                            assert(blueprint_views(prints@) =~= self.assemble_prefix(
                                k as int + 1,
                            ));
                        }
                    },
                }
            } else {
                proof {
                    assert(self.assemble_prefix(k as int + 1) == self.assemble_prefix(k as int));
                }
            }
            k += 1;
        }
        Ok(prints)
    }

    /// The book that a finished assembly wraps into: the source label and
    /// every cell's blueprint in row-major cell order.
    pub open spec fn book_view(self) -> BookV {
        BookV {
            item: "blueprint-book"@,
            label: self.label@,
            blueprints: self.assemble_prefix(self.npix()),
            active_index: 0,
            version: 0,
        }
    }

    /// Assembles the blueprints and wraps them into a book labeled after
    /// the source. Fails exactly as the assembly does.
    pub fn make_book(&self) -> (r: Result<FactorioBook, AssemblyError>)
        requires
            self.wf(),
            self.total_count() <= i32::MAX,
            self.npix() < i32::MAX,
        ensures
            match r {
                Ok(book) => self.assembly_ok() && book@ == self.book_view() && book.wf(),
                Err(e) => {
                    let i = self.first_unmatched(self.npix());
                    &&& !self.assembly_ok()
                    &&& 0 <= i < self.npix()
                    &&& e.color == self.image.pixels@[i]
                    &&& e.x == self.pixel_x(i)
                    &&& e.y == self.pixel_y(i)
                },
            },
    {
        let mut book = FactorioBook::new();
        book.set_label(self.label.clone());
        match self.make_blueprints() {
            Err(e) => Err(e),
            Ok(mut prints) => {
                let ghost all = blueprint_views(prints@);
                proof {
                    self.lemma_assemble_prefix_props(self.npix());
                    assert(all.skip(0) =~= all);
                    assert(all.take(0) =~= book@.blueprints);
                }
                while prints.len() > 0
                    invariant
                        book.wf(),
                        book@.item == "blueprint-book"@,
                        book@.label == self.label@,
                        book@.active_index == 0,
                        book@.version == 0,
                        all.len() <= i32::MAX,
                        prints@.len() <= all.len(),
                        book@.blueprints == all.take(all.len() - prints@.len()),
                        blueprint_views(prints@) == all.skip(all.len() - prints@.len()),
                    decreases prints@.len(),
                {
                    let ghost j = all.len() - prints@.len();
                    let ghost prev = prints@;
                    let bp = prints.remove(0);
                    proof {
                        assert(bp == prev[0]);
                        assert(blueprint_views(prev)[0] == prev[0]@);
                        assert(all.skip(j)[0] == all[j]);
                        assert(bp@ == all[j]);
                        assert(prints@ == prev.remove(0));
                        assert forall|t: int| 0 <= t < prints@.len() implies blueprint_views(
                            prints@,
                        )[t] == all.skip(j + 1)[t] by {
                            assert(prints@[t] == prev[t + 1]);
                            assert(blueprint_views(prev)[t + 1] == prev[t + 1]@);
                            assert(all.skip(j)[t + 1] == all[j + 1 + t]);
                            assert(all.skip(j + 1)[t] == all[j + 1 + t]);
                        }
                        assert(blueprint_views(prints@) =~= all.skip(j + 1));
                    }
                    book.add_blueprint(bp);
                    proof {
                        assert(book@.blueprints =~= all.take(j + 1));
                    }
                }
                proof {
                    assert(all.take(all.len() as int) =~= all);
                    assert(book@ == self.book_view());
                }
                Ok(book)
            },
        }
    }

    /// The JSON text that the export carries: the single record alone
    /// when the partition yields exactly one cell, else the book of all
    /// records.
    pub open spec fn export_json_text(self) -> Seq<char> {
        if self.total_count() == 1 {
            json_of_blueprint(self.assemble_prefix(self.npix())[0])
        } else {
            json_of_book(self.book_view())
        }
    }

    /// Round trip of the format shape: a one-cell partition serializes
    /// under the top-level `blueprint` key and any other under
    /// `blueprint_book`, never both.
    pub proof fn lemma_export_shape(self)
        ensures
            self.total_count() == 1 ==> self.export_json_text().subrange(0, 13)
                == "{\"blueprint\":"@,
            self.total_count() != 1 ==> self.export_json_text().subrange(0, 18)
                == "{\"blueprint_book\":"@,
    {
        if self.total_count() == 1 {
            crate::json::lemma_blueprint_json_top_key(
                self.assemble_prefix(self.npix())[0],
            );
        } else {
            crate::json::lemma_book_json_top_key(self.book_view());
        }
    }

    /// Assembles and serializes: the canonical JSON of the single record
    /// or of the book (a zero-cell partition exports an empty book),
    /// compressed, base64-encoded and prefixed with the version digit
    /// `0`. Fails exactly when the assembly finds an unmatched pixel, or
    /// when the compressed stream is too long to base64-encode.
    pub fn factorio_serialize(&self) -> (r: Result<String, ExportError>)
        requires
            self.wf(),
            self.total_count() <= i32::MAX,
            self.npix() < i32::MAX,
        ensures
            match r {
                Ok(s) => self.assembly_ok() && s@ == export_of(self.export_json_text())
                    && zlib_of(encode_utf8(self.export_json_text())).len() <= usize::MAX / 4,
                Err(ExportError::Assembly(e)) => {
                    let i = self.first_unmatched(self.npix());
                    &&& !self.assembly_ok()
                    &&& 0 <= i < self.npix()
                    &&& e.color == self.image.pixels@[i]
                    &&& e.x == self.pixel_x(i)
                    &&& e.y == self.pixel_y(i)
                },
                Err(ExportError::TooLarge) => self.assembly_ok() && zlib_of(
                    encode_utf8(self.export_json_text()),
                ).len() > usize::MAX / 4,
            },
    {
        let total: i32 = self.get_total_bp_count();
        if total == 1 {
            match self.make_blueprints() {
                Err(e) => Err(ExportError::Assembly(e)),
                Ok(prints) => {
                    proof {
                        self.lemma_assemble_prefix_props(self.npix());
                        assert(prints@[0]@ == self.assemble_prefix(self.npix())[0]);
                    }
                    let json = blueprint_to_json(&prints[0]);
                    match export_json(json.as_str()) {
                        Ok(s) => Ok(s),
                        Err(CodecError::TooLarge) => Err(ExportError::TooLarge),
                    }
                },
            }
        } else {
            match self.make_book() {
                Err(e) => Err(ExportError::Assembly(e)),
                Ok(book) => {
                    let json = book_to_json(&book);
                    match export_json(json.as_str()) {
                        Ok(s) => Ok(s),
                        Err(CodecError::TooLarge) => Err(ExportError::TooLarge),
                    }
                },
            }
        }
    }
}

} // verus!
