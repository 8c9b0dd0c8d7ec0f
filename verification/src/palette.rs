//! The fixed paint palette and the quantizer that maps a color to it.

use vstd::prelude::*;

verus! {

/// Number of concrete paint colors.
pub const PALETTE_SIZE: u8 = 16;

/// The palette index that means "no constraint at this position".
pub const SENTINEL: u8 = 16;

/// Colors with an alpha below this value are treated as transparent.
pub const ALPHA_THRESHOLD: u8 = 128;

/// A color of four 8-bit channels.
#[derive(Clone, Copy, Debug, PartialEq, Eq, Structural)]
pub struct Color {
    pub r: u8,
    pub g: u8,
    pub b: u8,
    pub a: u8,
}

/// Squared difference of two channel values.
pub open spec fn channel_gap(p: u8, q: u8) -> int {
    (p - q) * (p - q)
}

/// Squared Euclidean distance between two colors over all four channels.
pub open spec fn distance(p: Color, q: Color) -> int {
    channel_gap(p.r, q.r) + channel_gap(p.g, q.g) + channel_gap(p.b, q.b) + channel_gap(p.a, q.a)
}

/// `i` is the first entry of `palette` at minimal distance from `color`.
pub open spec fn is_nearest(palette: Seq<Color>, color: Color, i: int) -> bool {
    &&& 0 <= i < palette.len()
    &&& forall|j: int|
        0 <= j < palette.len() ==> distance(palette[i], color) <= distance(
            #[trigger] palette[j],
            color,
        )
    &&& forall|j: int|
        0 <= j < i ==> distance(palette[i], color) < distance(#[trigger] palette[j], color)
}

/// The sixteen paint colors, all fully opaque, in index order.
pub open spec fn standard_palette() -> Seq<Color> {
    seq![
        (Color { r: 255, g: 255, b: 255, a: 255 }),
        (Color { r: 228, g: 228, b: 228, a: 255 }),
        (Color { r: 136, g: 136, b: 136, a: 255 }),
        (Color { r: 34, g: 34, b: 34, a: 255 }),
        (Color { r: 255, g: 167, b: 209, a: 255 }),
        (Color { r: 229, g: 0, b: 0, a: 255 }),
        (Color { r: 229, g: 149, b: 0, a: 255 }),
        (Color { r: 160, g: 106, b: 66, a: 255 }),
        (Color { r: 229, g: 217, b: 0, a: 255 }),
        (Color { r: 148, g: 224, b: 68, a: 255 }),
        (Color { r: 2, g: 190, b: 1, a: 255 }),
        (Color { r: 0, g: 211, b: 221, a: 255 }),
        (Color { r: 0, g: 131, b: 199, a: 255 }),
        (Color { r: 0, g: 0, b: 234, a: 255 }),
        (Color { r: 207, g: 110, b: 228, a: 255 }),
        (Color { r: 130, g: 0, b: 128, a: 255 }),
    ]
}

/// What the quantizer owes for `color` against `palette`: the sentinel for a
/// transparent color, the first nearest entry otherwise.
pub open spec fn quantizes_to(palette: Seq<Color>, color: Color, index: int) -> bool {
    if color.a < ALPHA_THRESHOLD {
        index == SENTINEL
    } else {
        is_nearest(palette, color, index)
    }
}

/// Builds the standard palette.
pub fn palette() -> (p: Vec<Color>)
    ensures
        p@ == standard_palette(),
{
    let p = vec![
        Color { r: 255, g: 255, b: 255, a: 255 },
        Color { r: 228, g: 228, b: 228, a: 255 },
        Color { r: 136, g: 136, b: 136, a: 255 },
        Color { r: 34, g: 34, b: 34, a: 255 },
        Color { r: 255, g: 167, b: 209, a: 255 },
        Color { r: 229, g: 0, b: 0, a: 255 },
        Color { r: 229, g: 149, b: 0, a: 255 },
        Color { r: 160, g: 106, b: 66, a: 255 },
        Color { r: 229, g: 217, b: 0, a: 255 },
        Color { r: 148, g: 224, b: 68, a: 255 },
        Color { r: 2, g: 190, b: 1, a: 255 },
        Color { r: 0, g: 211, b: 221, a: 255 },
        Color { r: 0, g: 131, b: 199, a: 255 },
        Color { r: 0, g: 0, b: 234, a: 255 },
        Color { r: 207, g: 110, b: 228, a: 255 },
        Color { r: 130, g: 0, b: 128, a: 255 },
    ];
    assert(p@ =~= standard_palette());
    p
}

fn gap(p: u8, q: u8) -> (d: u32)
    ensures
        d == channel_gap(p, q),
        d <= 65025,
{
    let w: u32 = if p >= q { (p - q) as u32 } else { (q - p) as u32 };
    assert(w * w == channel_gap(p, q) && w * w <= 65025) by (nonlinear_arith)
        requires
            w <= 255,
            w == p - q || w == q - p,
    ;
    w * w
}

fn color_distance(p: Color, q: Color) -> (d: u32)
    ensures
        d == distance(p, q),
{
    gap(p.r, q.r) + gap(p.g, q.g) + gap(p.b, q.b) + gap(p.a, q.a)
}

/// Index of the first entry of `palette` nearest to `color`.
pub fn nearest_index(palette: &[Color], color: Color) -> (i: usize)
    requires
        palette.len() > 0,
    ensures
        is_nearest(palette@, color, i as int),
{
    let mut best: usize = 0;
    let mut best_distance: u32 = color_distance(palette[0], color);
    let mut j: usize = 1;
    while j < palette.len()
        invariant
            1 <= j <= palette.len(),
            0 <= best < j,
            best_distance == distance(palette@[best as int], color),
            forall|k: int| 0 <= k < j ==> best_distance <= distance(#[trigger] palette@[k], color),
            forall|k: int|
                0 <= k < best ==> best_distance < distance(#[trigger] palette@[k], color),
        decreases palette.len() - j,
    {
        let d = color_distance(palette[j], color);
        if d < best_distance {
            best = j;
            best_distance = d;
        }
        j += 1;
    }
    best
}

/// Quantizes `color` against `palette`: the sentinel for a transparent color,
/// otherwise the index of the first nearest entry.
pub fn quantize(palette: &[Color], color: Color) -> (index: u8)
    requires
        0 < palette.len() <= PALETTE_SIZE,
    ensures
        quantizes_to(palette@, color, index as int),
{
    if color.a < ALPHA_THRESHOLD {
        SENTINEL
    } else {
        nearest_index(palette, color) as u8
    }
}

/// Quantizes a color given as at least four channel bytes (red, green, blue,
/// alpha) against the standard palette.
pub fn color_to_index(color: &[u8]) -> (index: u8)
    requires
        color.len() >= 4,
    ensures
        quantizes_to(
            standard_palette(),
            (Color { r: color[0], g: color[1], b: color[2], a: color[3] }),
            index as int,
        ),
        index <= SENTINEL,
{
    let c = Color { r: color[0], g: color[1], b: color[2], a: color[3] };
    let p = palette();
    quantize(p.as_slice(), c)
}

/// A color has at most one quantization.
pub proof fn lemma_quantization_unique(palette: Seq<Color>, color: Color, i: int, j: int)
    requires
        quantizes_to(palette, color, i),
        quantizes_to(palette, color, j),
    ensures
        i == j,
{
    if color.a >= ALPHA_THRESHOLD {
        if i < j {
            assert(distance(palette[j], color) < distance(palette[i], color));
        } else if j < i {
            assert(distance(palette[i], color) < distance(palette[j], color));
        }
    }
}

/// Every color below the alpha threshold quantizes to the sentinel, whatever
/// its other channels hold.
pub proof fn lemma_transparent_is_sentinel(palette: Seq<Color>, color: Color, i: int)
    requires
        color.a < ALPHA_THRESHOLD,
        quantizes_to(palette, color, i),
    ensures
        i == SENTINEL,
{
}

/// An opaque color equal to a palette entry quantizes to the first index that
/// holds that entry.
pub proof fn lemma_exact_match(palette: Seq<Color>, i: int)
    requires
        0 <= i < palette.len(),
        palette[i].a >= ALPHA_THRESHOLD,
        forall|j: int| 0 <= j < i ==> palette[j] != palette[i],
    ensures
        quantizes_to(palette, palette[i], i),
{
    let c = palette[i];
    assert forall|p: Color| distance(p, c) >= 0 && (distance(p, c) == 0 ==> p == c) by {
        lemma_gap(p.r, c.r);
        lemma_gap(p.g, c.g);
        lemma_gap(p.b, c.b);
        lemma_gap(p.a, c.a);
    }
    lemma_gap(c.r, c.r);
    lemma_gap(c.g, c.g);
    lemma_gap(c.b, c.b);
    lemma_gap(c.a, c.a);
    assert(distance(c, c) == 0);
}

/// The entries of the standard palette are pairwise different, so each one
/// quantizes to its own index.
pub proof fn lemma_standard_entry(i: int)
    requires
        0 <= i < PALETTE_SIZE,
    ensures
        quantizes_to(standard_palette(), standard_palette()[i], i),
{
    let p = standard_palette();
    assert forall|j: int| 0 <= j < i implies p[j] != p[i] by {
        assert(p[j].r != p[i].r || p[j].g != p[i].g || p[j].b != p[i].b);
    }
    lemma_exact_match(p, i);
}

proof fn lemma_gap(p: u8, q: u8)
    ensures
        channel_gap(p, q) >= 0,
        channel_gap(p, q) == 0 <==> p == q,
{
    assert(channel_gap(p, q) >= 0 && (channel_gap(p, q) == 0 <==> p == q)) by (nonlinear_arith)
        requires
            channel_gap(p, q) == (p - q) * (p - q),
    ;
}

} // verus!
