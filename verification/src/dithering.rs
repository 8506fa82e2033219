use vstd::prelude::*;
use crate::color::{weighted_dist, color_dist, Color};

verus! {

/// A placeable game object: its name and whether it is placed as a tile.
pub struct FactorioObject {
    pub name: String,
    pub is_tile: bool,
}

/// The mathematical model of a placeable object.
pub ghost struct FactorioObjectV {
    pub name: Seq<char>,
    pub is_tile: bool,
}

impl View for FactorioObject {
    type V = FactorioObjectV;

    open spec fn view(&self) -> FactorioObjectV {
        FactorioObjectV { name: self.name@, is_tile: self.is_tile }
    }
}

/// The palette handed to the dithering pass: an ordered list of RGBA colors,
/// each bound to a placeable object. Unlike the printer palette, its colors
/// keep their alpha channel, and the nearest search uses perceptual channel
/// weights.
pub struct FactorioColorMap {
    pub objects: Vec<(Color, FactorioObject)>,
    pub weight_red: u32,
    pub weight_green: u32,
    pub weight_blue: u32,
}

impl FactorioColorMap {
    /// The ordered entries, as (color, object model) pairs.
    pub open spec fn entries(&self) -> Seq<(Color, FactorioObjectV)> {
        self.objects@.map(|i: int, p: (Color, FactorioObject)| (p.0, p.1@))
    }

    /// Weighted squared distance from a query color to entry `i`; the alpha
    /// channels never take part.
    pub open spec fn dist_to(&self, c: Color, i: int) -> int {
        weighted_dist(
            self.weight_red,
            self.weight_green,
            self.weight_blue,
            c.r,
            c.g,
            c.b,
            self.entries()[i].0.r,
            self.entries()[i].0.g,
            self.entries()[i].0.b,
        )
    }

    /// Index of the entry with the least weighted distance to `c` among the
    /// first `n` entries; on ties the earliest entry wins.
    pub open spec fn nearest_index_prefix(&self, c: Color, n: int) -> int
        decreases n,
    {
        if n <= 1 {
            0
        } else {
            let prev = self.nearest_index_prefix(c, n - 1);
            if self.dist_to(c, n - 1) < self.dist_to(c, prev) {
                n - 1
            } else {
                prev
            }
        }
    }

    /// Index of the first entry at the least weighted distance to `c`.
    pub open spec fn nearest_index(&self, c: Color) -> int {
        self.nearest_index_prefix(c, self.entries().len() as int)
    }

    /// Index of the first entry among the first `n` whose full RGBA color
    /// equals `c`, or -1 when none matches.
    pub open spec fn match_index_prefix(&self, c: Color, n: int) -> int
        decreases n,
    {
        if n <= 0 {
            -1
        } else {
            let prev = self.match_index_prefix(c, n - 1);
            if prev >= 0 {
                prev
            } else if self.entries()[n - 1].0 == c {
                n - 1
            } else {
                -1
            }
        }
    }

    /// Index of the first entry whose full RGBA color equals `c`, or -1
    /// when no entry matches.
    pub open spec fn match_index(&self, c: Color) -> int {
        self.match_index_prefix(c, self.entries().len() as int)
    }

    proof fn lemma_nearest_index_prefix(&self, c: Color, n: int)
        requires
            1 <= n <= self.entries().len(),
        ensures
            0 <= self.nearest_index_prefix(c, n) < n,
            forall|j: int|
                0 <= j < n ==> #[trigger] self.dist_to(c, j) >= self.dist_to(
                    c,
                    self.nearest_index_prefix(c, n),
                ),
            forall|j: int|
                0 <= j < self.nearest_index_prefix(c, n) ==> #[trigger] self.dist_to(c, j)
                    > self.dist_to(c, self.nearest_index_prefix(c, n)),
        decreases n,
    {
        if n > 1 {
            self.lemma_nearest_index_prefix(c, n - 1);
        }
    }

    /// The first-minimum index is valid, no entry is strictly nearer, and
    /// every earlier entry is strictly farther: ties go to the earliest
    /// entry, and the result is a function of the palette and the query
    /// alone.
    pub proof fn lemma_nearest_index_first_min(&self, c: Color)
        requires
            self.entries().len() > 0,
        ensures
            0 <= self.nearest_index(c) < self.entries().len(),
            forall|j: int|
                0 <= j < self.entries().len() ==> #[trigger] self.dist_to(c, j) >= self.dist_to(
                    c,
                    self.nearest_index(c),
                ),
            forall|j: int|
                0 <= j < self.nearest_index(c) ==> #[trigger] self.dist_to(c, j) > self.dist_to(
                    c,
                    self.nearest_index(c),
                ),
    {
        self.lemma_nearest_index_prefix(c, self.entries().len() as int);
    }

    proof fn lemma_match_found(&self, c: Color, i: int, n: int)
        requires
            0 <= i < n <= self.entries().len(),
            self.match_index_prefix(c, i) == -1,
            self.entries()[i].0 == c,
        ensures
            self.match_index_prefix(c, n) == i,
        decreases n,
    {
        if n > i + 1 {
            self.lemma_match_found(c, i, n - 1);
        }
    }

    /// An empty palette with the perceptual channel weights.
    pub fn new() -> (m: FactorioColorMap)
        ensures
            m.entries().len() == 0,
            m.weight_red == 11 && m.weight_green == 59 && m.weight_blue == 30,
    {
        let m = FactorioColorMap {
            objects: Vec::new(),
            weight_red: 11,
            weight_green: 59,
            weight_blue: 30,
        };
        proof {
            assert(m.entries() =~= Seq::<(Color, FactorioObjectV)>::empty());
        }
        m
    }

    /// Appends one entry; order of addition is the palette order.
    pub fn add(&mut self, color: Color, name: &str, is_tile: bool)
        ensures
            final(self).entries() == old(self).entries().push(
                (color, FactorioObjectV { name: name@, is_tile }),
            ),
            final(self).weight_red == old(self).weight_red,
            final(self).weight_green == old(self).weight_green,
            final(self).weight_blue == old(self).weight_blue,
    {
        self.objects.push((color, FactorioObject { name: name.to_owned(), is_tile }));
        proof {
            assert(self.entries() =~= old(self).entries().push(
                (color, FactorioObjectV { name: name@, is_tile }),
            ));
        }
    }

    /// The object bound to the first entry whose full RGBA color equals the
    /// query exactly, else `None`.
    pub fn get_fo(&self, color: &Color) -> (r: Option<FactorioObject>)
        ensures
            match r {
                Some(fo) => self.match_index(*color) >= 0 && fo@ == self.entries()[self.match_index(
                    *color,
                )].1,
                None => self.match_index(*color) == -1,
            },
    {
        let mut i: usize = 0;
        while i < self.objects.len()
            invariant
                i <= self.entries().len(),
                self.match_index_prefix(*color, i as int) == -1,
            decreases self.entries().len() - i,
        {
            let (k, v) = &self.objects[i];
            if k.r == color.r && k.g == color.g && k.b == color.b && k.a == color.a {
                proof {
                    self.lemma_match_found(*color, i as int, self.entries().len() as int);
                }
                return Some(FactorioObject { name: v.name.clone(), is_tile: v.is_tile });
            }
            i += 1;
        }
        None
    }

    /// The stored color of the entry nearest to the query under the
    /// palette's channel weights, or `None` on an empty palette; on ties
    /// the earliest entry wins.
    pub fn find_nearest_color(&self, color: &Color) -> (r: Option<Color>)
        ensures
            match r {
                Some(c) => self.entries().len() > 0 && c == self.entries()[self.nearest_index(
                    *color,
                )].0,
                None => self.entries().len() == 0,
            },
    {
        if self.objects.len() == 0 {
            return None;
        }
        let mut best_i: usize = 0;
        let mut best_d: u64 = color_dist(
            self.weight_red,
            self.weight_green,
            self.weight_blue,
            *color,
            self.objects[0].0,
        );
        let mut i: usize = 1;
        while i < self.objects.len()
            invariant
                1 <= i <= self.entries().len(),
                best_i == self.nearest_index_prefix(*color, i as int),
                0 <= best_i < i,
                best_d == self.dist_to(*color, best_i as int),
            decreases self.entries().len() - i,
        {
            let d: u64 = color_dist(
                self.weight_red,
                self.weight_green,
                self.weight_blue,
                *color,
                self.objects[i].0,
            );
            if d < best_d {
                best_i = i;
                best_d = d;
            }
            i += 1;
        }
        Some(self.objects[best_i].0)
    }

    /// Exact palette lookup over the full RGBA color: the position of the
    /// first matching entry, else `usize::MAX` as the "not found" sentinel.
    pub fn index_of(&self, color: &Color) -> (r: usize)
        ensures
            self.match_index(*color) >= 0 ==> r == self.match_index(*color),
            self.match_index(*color) < 0 ==> r == usize::MAX,
    {
        let mut i: usize = 0;
        while i < self.objects.len()
            invariant
                i <= self.entries().len(),
                self.match_index_prefix(*color, i as int) == -1,
            decreases self.entries().len() - i,
        {
            let (k, _v) = &self.objects[i];
            if k.r == color.r && k.g == color.g && k.b == color.b && k.a == color.a {
                proof {
                    self.lemma_match_found(*color, i as int, self.entries().len() as int);
                }
                return i;
            }
            i += 1;
        }
        usize::MAX
    }

    /// Replaces the color in place with the nearest entry's color, its
    /// alpha channel forced to fully opaque: the caller carries alpha
    /// separately, never through the quantizer. The palette must not be
    /// empty: there would be no color to return.
    pub fn map_color(&self, color: &mut Color)
        requires
            self.entries().len() > 0,
        ensures
            ({
                let m = self.entries()[self.nearest_index(*old(color))].0;
                *final(color) == (Color { r: m.r, g: m.g, b: m.b, a: 255u8 })
            }),
    {
        let c = *color;
        let r = self.find_nearest_color(&c);
        match r {
            Some(n) => {
                *color = n.opaque();
            },
            None => {
                proof {
                    assert(false);
                }
            },
        }
    }
}

} // verus!
