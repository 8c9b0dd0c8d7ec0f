//! Comparison of a canvas snapshot with a quantized target, and the choice of
//! the next pixel to paint.

use vstd::prelude::*;
use rand::Rng;
use crate::canvas::{board_value, sample_board, CANVAS_HEIGHT, CANVAS_WIDTH, ROW_STRIDE};
use crate::palette::SENTINEL;

verus! {

/// A canvas snapshot together with a target placed on it. Positions of the
/// target are numbered in scan order: row by row, left to right.
pub struct Scene {
    pub board: Seq<u8>,
    pub x: int,
    pub y: int,
    pub width: int,
    pub height: int,
    pub image: Seq<u8>,
}

/// A pixel to paint: absolute canvas coordinates and the wanted palette index.
#[derive(Clone, Copy, Debug, PartialEq, Eq, Structural)]
pub struct Pixel {
    pub x: u32,
    pub y: u32,
    pub color: u8,
}

/// Counts taken over a whole target.
#[derive(Clone, Copy, Debug, PartialEq, Eq, Structural)]
pub struct Progress {
    /// Positions that carry a paint color.
    pub solid: u32,
    /// Solid positions where the canvas holds another color.
    pub mismatched: u32,
}

/// Outcome of a selection.
#[derive(Clone, Copy, Debug, PartialEq, Eq, Structural)]
pub enum Pick {
    /// Every solid position already matches the canvas.
    Exhausted,
    /// The pixel to paint next.
    Paint(Pixel),
}

/// What a selection reports: the counts and the choice.
#[derive(Clone, Copy, Debug, PartialEq, Eq, Structural)]
pub struct Selection {
    pub progress: Progress,
    pub pick: Pick,
}

impl Scene {
    /// The target lies within the canvas, the snapshot holds every row that
    /// the target touches, and the image holds one index per position.
    pub open spec fn fits(self) -> bool {
        &&& 0 <= self.x
        &&& 0 <= self.y
        &&& 0 <= self.width
        &&& 0 <= self.height
        &&& self.x + self.width <= CANVAS_WIDTH
        &&& self.y + self.height <= CANVAS_HEIGHT
        &&& (self.y + self.height) * ROW_STRIDE <= self.board.len()
        &&& self.image.len() == self.width * self.height
    }

    /// Number of positions.
    pub open spec fn area(self) -> int {
        self.width * self.height
    }

    /// The palette index wanted at position `i`.
    pub open spec fn wanted(self, i: int) -> u8 {
        self.image[i]
    }

    /// The palette index that the canvas holds under position `i`.
    pub open spec fn painted(self, i: int) -> u8 {
        board_value(self.board, self.x + i % self.width, self.y + i / self.width)
    }

    /// Position `i` carries a paint color.
    pub open spec fn is_solid(self, i: int) -> bool {
        self.wanted(i) != SENTINEL
    }

    /// Position `i` is solid and the canvas holds another color there.
    pub open spec fn is_mismatch(self, i: int) -> bool {
        self.is_solid(i) && self.wanted(i) != self.painted(i)
    }

    /// Number of solid positions below `n`.
    pub open spec fn solid_before(self, n: int) -> int
        decreases n,
    {
        if n <= 0 {
            0
        } else {
            self.solid_before(n - 1) + if self.is_solid(n - 1) { 1int } else { 0int }
        }
    }

    /// Number of mismatches below `n`.
    pub open spec fn mismatches_before(self, n: int) -> int
        decreases n,
    {
        if n <= 0 {
            0
        } else {
            self.mismatches_before(n - 1) + if self.is_mismatch(n - 1) { 1int } else { 0int }
        }
    }

    /// Number of solid positions of the target.
    pub open spec fn solid_count(self) -> int {
        self.solid_before(self.area())
    }

    /// Number of mismatches of the target.
    pub open spec fn mismatch_count(self) -> int {
        self.mismatches_before(self.area())
    }

    /// Position `i` is the mismatch that `k` mismatches precede in scan order.
    pub open spec fn has_rank(self, i: int, k: int) -> bool {
        &&& 0 <= i < self.area()
        &&& self.is_mismatch(i)
        &&& self.mismatches_before(i) == k
    }

    /// The position of the mismatch of rank `k`.
    pub open spec fn nth_mismatch(self, k: int) -> int {
        choose|i: int| self.has_rank(i, k)
    }

    /// The pixel to paint for position `i`.
    pub open spec fn pixel_at(self, i: int) -> Pixel {
        Pixel {
            x: (self.x + i % self.width) as u32,
            y: (self.y + i / self.width) as u32,
            color: self.wanted(i),
        }
    }

    /// The counts of the whole target.
    pub open spec fn progress(self) -> Progress {
        Progress { solid: self.solid_count() as u32, mismatched: self.mismatch_count() as u32 }
    }
}

/// The scene that a snapshot and a placed target make.
pub open spec fn scene_of(
    board: Seq<u8>,
    x: u32,
    y: u32,
    width: u32,
    height: u32,
    image: Seq<u8>,
) -> Scene {
    Scene { board, x: x as int, y: y as int, width: width as int, height: height as int, image }
}

/// The counts never exceed the number of positions below `n`, and there are
/// no more mismatches than solid positions.
pub proof fn lemma_counts_bounded(s: Scene, n: int)
    requires
        0 <= n,
    ensures
        0 <= s.mismatches_before(n) <= s.solid_before(n) <= n,
    decreases n,
{
    if n > 0 {
        lemma_counts_bounded(s, n - 1);
    }
}

/// The number of mismatches below a position does not fall as the position
/// grows, and it grows past each mismatch.
pub proof fn lemma_mismatches_monotone(s: Scene, i: int, j: int)
    requires
        0 <= i <= j,
    ensures
        s.mismatches_before(i) <= s.mismatches_before(j),
        i < j && s.is_mismatch(i) ==> s.mismatches_before(i) < s.mismatches_before(j),
    decreases j,
{
    if i < j {
        lemma_mismatches_monotone(s, i, j - 1);
    }
}

/// Two mismatches of one rank are the same position.
pub proof fn lemma_rank_unique(s: Scene, i: int, j: int, k: int)
    requires
        s.has_rank(i, k),
        s.has_rank(j, k),
    ensures
        i == j,
{
    if i < j {
        lemma_mismatches_monotone(s, i, j);
    } else if j < i {
        lemma_mismatches_monotone(s, j, i);
    }
}

/// Each rank below the number of mismatches among the first `n` positions is
/// the rank of one of them.
pub proof fn lemma_rank_exists(s: Scene, n: int, k: int)
    requires
        0 <= n <= s.area(),
        0 <= k < s.mismatches_before(n),
    ensures
        s.has_rank(s.nth_mismatch(k), k),
        s.nth_mismatch(k) < n,
    decreases n,
{
    if k < s.mismatches_before(n - 1) {
        lemma_rank_exists(s, n - 1, k);
    } else {
        assert(s.has_rank(n - 1, k));
        lemma_rank_unique(s, n - 1, s.nth_mismatch(k), k);
    }
}

/// Draw values and mismatches correspond one to one: every draw below the
/// number of mismatches selects a mismatch of that rank, two different draws
/// select different positions, and every mismatch is selected by the draw
/// that equals its rank.
pub proof fn lemma_draws_cover_mismatches(s: Scene)
    requires
        0 <= s.area(),
    ensures
        forall|k: int|
            0 <= k < s.mismatch_count() ==> s.has_rank(#[trigger] s.nth_mismatch(k), k),
        forall|k: int, l: int|
            0 <= k < s.mismatch_count() && 0 <= l < s.mismatch_count() && k != l
                ==> s.nth_mismatch(k) != s.nth_mismatch(l),
        forall|i: int|
            0 <= i < s.area() && #[trigger] s.is_mismatch(i) ==> {
                &&& 0 <= s.mismatches_before(i) < s.mismatch_count()
                &&& s.nth_mismatch(s.mismatches_before(i)) == i
            },
{
    assert forall|k: int| 0 <= k < s.mismatch_count() implies s.has_rank(
        #[trigger] s.nth_mismatch(k),
        k,
    ) by {
        lemma_rank_exists(s, s.area(), k);
    }
    assert forall|i: int| 0 <= i < s.area() && #[trigger] s.is_mismatch(i) implies {
        &&& 0 <= s.mismatches_before(i) < s.mismatch_count()
        &&& s.nth_mismatch(s.mismatches_before(i)) == i
    } by {
        lemma_counts_bounded(s, i);
        lemma_mismatches_monotone(s, i, s.area());
        let k = s.mismatches_before(i);
        assert(s.has_rank(i, k));
        lemma_rank_unique(s, i, s.nth_mismatch(k), k);
    }
}

/// A target is exhausted, that is, it has no mismatch, exactly when each of
/// its positions either carries the sentinel or already matches the canvas.
/// In particular a target without solid positions is exhausted.
pub proof fn lemma_exhausted(s: Scene)
    requires
        0 <= s.area(),
    ensures
        s.mismatch_count() == 0 <==> (forall|i: int|
            0 <= i < s.area() ==> !s.is_solid(i) || s.wanted(i) == s.painted(i)),
        s.solid_count() == 0 ==> s.mismatch_count() == 0,
        (forall|i: int| 0 <= i < s.area() ==> s.wanted(i) == SENTINEL) ==> s.solid_count() == 0,
{
    lemma_no_mismatch_before(s, s.area());
}

proof fn lemma_no_mismatch_before(s: Scene, n: int)
    requires
        0 <= n,
    ensures
        s.mismatches_before(n) == 0 <==> (forall|i: int|
            0 <= i < n ==> !s.is_solid(i) || s.wanted(i) == s.painted(i)),
        s.solid_before(n) == 0 <==> (forall|i: int| 0 <= i < n ==> s.wanted(i) == SENTINEL),
        s.solid_before(n) == 0 ==> s.mismatches_before(n) == 0,
    decreases n,
{
    lemma_counts_bounded(s, n);
    if n > 0 {
        lemma_no_mismatch_before(s, n - 1);
        lemma_counts_bounded(s, n - 1);
        if s.mismatches_before(n) == 0 {
            assert(!s.is_mismatch(n - 1));
        } else if s.mismatches_before(n - 1) == 0 {
            assert(s.is_mismatch(n - 1));
        }
        if s.solid_before(n) == 0 {
            assert(!s.is_solid(n - 1));
        } else if s.solid_before(n - 1) == 0 {
            assert(s.is_solid(n - 1));
        }
    }
}

/// Scan order is row-major: the position of local coordinates `(px, py)` is
/// `py * width + px`, and it leads back to them.
pub proof fn lemma_scan_order(s: Scene, px: int, py: int)
    requires
        0 <= px < s.width,
        0 <= py < s.height,
    ensures
        0 <= py * s.width + px < s.area(),
        (py * s.width + px) % s.width == px,
        (py * s.width + px) / s.width == py,
{
    let w = s.width;
    let i = py * w + px;
    vstd::arithmetic::div_mod::lemma_fundamental_div_mod_converse(i, w, py, px);
    assert(0 <= py * w && py * w + w <= w * s.height) by (nonlinear_arith)
        requires
            0 <= py < s.height,
            0 < w,
    ;
}

proof fn lemma_position(s: Scene, i: int)
    requires
        s.fits(),
        0 <= i < s.area(),
    ensures
        0 <= i % s.width < s.width,
        0 <= i / s.width < s.height,
        s.area() <= 1000000,
{
    let w = s.width;
    let h = s.height;
    assert(w > 0 && 0 <= i / w < h && 0 <= i % w < w && w * h <= 1000000) by (nonlinear_arith)
        requires
            0 <= i < w * h,
            0 <= w <= 1000,
            0 <= h <= 1000,
    ;
}

proof fn lemma_area(s: Scene)
    requires
        s.fits(),
    ensures
        0 <= s.area() <= 1000000,
{
    let w = s.width;
    let h = s.height;
    assert(0 <= w * h <= 1000000) by (nonlinear_arith)
        requires
            0 <= w <= 1000,
            0 <= h <= 1000,
    ;
}

/// Counts the solid positions and the mismatches of a target.
pub fn survey(
    board: &[u8],
    x: u32,
    y: u32,
    width: u32,
    height: u32,
    target_image: &[u8],
) -> (p: Progress)
    requires
        scene_of(board@, x, y, width, height, target_image@).fits(),
    ensures
        p == scene_of(board@, x, y, width, height, target_image@).progress(),
        p.solid == scene_of(board@, x, y, width, height, target_image@).solid_count(),
        p.mismatched == scene_of(board@, x, y, width, height, target_image@).mismatch_count(),
        p.mismatched <= p.solid,
{
    let ghost s = scene_of(board@, x, y, width, height, target_image@);
    proof {
        lemma_area(s);
    }
    let area: u32 = width * height;
    let mut solid: u32 = 0;
    let mut mismatched: u32 = 0;
    let mut i: u32 = 0;
    while i < area
        invariant
            s == scene_of(board@, x, y, width, height, target_image@),
            s.fits(),
            area == s.area(),
            area <= 1000000,
            0 <= i <= area,
            solid == s.solid_before(i as int),
            mismatched == s.mismatches_before(i as int),
        decreases area - i,
    {
        proof {
            lemma_position(s, i as int);
            lemma_counts_bounded(s, i as int);
        }
        let tp = target_image[i as usize];
        let bp = sample_board(board, x + i % width, y + i / width);
        if tp != SENTINEL && tp != bp {
            mismatched += 1;
        }
        if tp != SENTINEL {
            solid += 1;
        }
        i += 1;
    }
    proof {
        lemma_counts_bounded(s, area as int);
    }
    Progress { solid, mismatched }
}

/// The mismatch of rank `k` in scan order, as the pixel to paint.
pub fn pick_nth(
    board: &[u8],
    x: u32,
    y: u32,
    width: u32,
    height: u32,
    target_image: &[u8],
    k: u32,
) -> (p: Pixel)
    requires
        scene_of(board@, x, y, width, height, target_image@).fits(),
        k < scene_of(board@, x, y, width, height, target_image@).mismatch_count(),
    ensures
        ({
            let s = scene_of(board@, x, y, width, height, target_image@);
            &&& s.has_rank(s.nth_mismatch(k as int), k as int)
            &&& p == s.pixel_at(s.nth_mismatch(k as int))
        }),
{
    let ghost s = scene_of(board@, x, y, width, height, target_image@);
    proof {
        lemma_area(s);
        lemma_rank_exists(s, s.area(), k as int);
    }
    let area: u32 = width * height;
    let mut seen: u32 = 0;
    let mut i: u32 = 0;
    loop
        invariant
            s == scene_of(board@, x, y, width, height, target_image@),
            s.fits(),
            area == s.area(),
            area <= 1000000,
            0 <= i < area,
            seen == s.mismatches_before(i as int),
            seen <= k < s.mismatch_count(),
        decreases area - i,
    {
        proof {
            lemma_position(s, i as int);
        }
        let tp = target_image[i as usize];
        let bp = sample_board(board, x + i % width, y + i / width);
        if tp != SENTINEL && tp != bp {
            if seen == k {
                proof {
                    assert(s.has_rank(i as int, k as int));
                    lemma_rank_unique(s, i as int, s.nth_mismatch(k as int), k as int);
                }
                return Pixel { x: x + i % width, y: y + i / width, color: tp };
            }
            seen += 1;
        }
        i += 1;
    }
}

/// Draws an index below `bound` with `rand::Rng::gen_range` on the thread's
/// generator. The draw is uniform over `0..bound`; all that is claimed here
/// is that it lies in that range.
#[verifier::external_body]
fn draw_below(bound: u32) -> (k: u32)
    requires
        bound > 0,
    ensures
        k < bound,
{
    rand::thread_rng().gen_range(0..bound)
}

/// Completion of a target in tenths of a percent, rounded down; a target
/// without solid positions counts as complete.
pub fn completion_tenths(progress: Progress) -> (t: u32)
    requires
        progress.mismatched <= progress.solid,
    ensures
        progress.solid == 0 ==> t == 1000,
        progress.solid > 0 ==> t == (progress.solid - progress.mismatched) * 1000
            / (progress.solid as int),
        t <= 1000,
{
    if progress.solid == 0 {
        1000
    } else {
        let done: u64 = (progress.solid - progress.mismatched) as u64;
        let solid: u64 = progress.solid as u64;
        proof {
            vstd::arithmetic::div_mod::lemma_div_multiples_vanish(1000, solid as int);
            vstd::arithmetic::div_mod::lemma_div_is_ordered(
                done * 1000,
                solid * 1000,
                solid as int,
            );
        }
        (done * 1000 / solid) as u32
    }
}

/// Surveys the target and, unless it is exhausted, picks one of its
/// mismatches by a random draw over their ranks.
pub fn pick_random_pixel(
    board: &[u8],
    x: u32,
    y: u32,
    width: u32,
    height: u32,
    target_image: &[u8],
) -> (sel: Selection)
    requires
        scene_of(board@, x, y, width, height, target_image@).fits(),
    ensures
        ({
            let s = scene_of(board@, x, y, width, height, target_image@);
            &&& sel.progress == s.progress()
            &&& sel.progress.solid == s.solid_count()
            &&& sel.progress.mismatched == s.mismatch_count()
            &&& sel.pick == Pick::Exhausted <==> s.mismatch_count() == 0
            &&& sel.pick matches Pick::Paint(p) ==> exists|k: int|
                0 <= k < s.mismatch_count() && #[trigger] s.has_rank(s.nth_mismatch(k), k) && p
                    == s.pixel_at(s.nth_mismatch(k))
        }),
{
    let progress = survey(board, x, y, width, height, target_image);
    if progress.mismatched == 0 {
        Selection { progress, pick: Pick::Exhausted }
    } else {
        let k = draw_below(progress.mismatched);
        let p = pick_nth(board, x, y, width, height, target_image, k);
        Selection { progress, pick: Pick::Paint(p) }
    }
}

} // verus!
