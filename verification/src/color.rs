use vstd::prelude::*;

verus! {

/// An RGBA color, one byte per channel.
#[derive(Clone, Copy, PartialEq, Eq, Structural, Debug)]
pub struct Color {
    pub r: u8,
    pub g: u8,
    pub b: u8,
    pub a: u8,
}

impl Color {
    pub fn new(r: u8, g: u8, b: u8, a: u8) -> (c: Color)
        ensures
            c == (Color { r, g, b, a }),
    {
        Color { r, g, b, a }
    }

    /// The same color with the alpha channel forced to fully opaque.
    pub fn opaque(self) -> (c: Color)
        ensures
            c == (Color { a: 255u8, ..self }),
    {
        Color { a: 255, ..self }
    }
}

/// Weighted squared distance between two colors over the red, green and blue
/// channels; the alpha channel never takes part.
pub open spec fn weighted_dist(
    wr: u32,
    wg: u32,
    wb: u32,
    r1: u8,
    g1: u8,
    b1: u8,
    r2: u8,
    g2: u8,
    b2: u8,
) -> int {
    wr * (r1 - r2) * (r1 - r2) + wg * (g1 - g2) * (g1 - g2) + wb * (b1 - b2) * (b1 - b2)
}

/// One weighted channel term, computed without overflow.
pub fn channel_term(w: u32, x: u8, y: u8) -> (t: u64)
    ensures
        t == w * (x - y) * (x - y),
        t <= 0xffff_ffffu64 * 65025,
{
    let d: i64 = x as i64 - y as i64;
    proof {
        assert(d * d == (x - y) * (x - y) && 0 <= d * d <= 65025) by (nonlinear_arith)
            requires
                d == x - y,
                -255 <= d <= 255,
        ;
    }
    let sq: i64 = d * d;
    proof {
        assert(w * sq <= 0xffff_ffffu64 * 65025) by (nonlinear_arith)
            requires
                0 <= sq <= 65025,
                w <= 0xffff_ffffu64,
        ;
        assert(w as u64 * sq as u64 == w * (x - y) * (x - y)) by (nonlinear_arith)
            requires
                sq == (x - y) * (x - y),
                0 <= sq,
                0 <= w,
        ;
    }
    w as u64 * sq as u64
}

/// The full weighted squared distance, computed without overflow.
pub fn color_dist(wr: u32, wg: u32, wb: u32, c1: Color, c2: Color) -> (d: u64)
    ensures
        d == weighted_dist(wr, wg, wb, c1.r, c1.g, c1.b, c2.r, c2.g, c2.b),
{
    let tr = channel_term(wr, c1.r, c2.r);
    let tg = channel_term(wg, c1.g, c2.g);
    let tb = channel_term(wb, c1.b, c2.b);
    tr + tg + tb
}

} // verus!
