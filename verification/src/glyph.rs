//! Glyphs: rasterised coverage bitmaps turned into points to draw.
//!
//! A glyph's bitmap holds one coverage value for each cell, row after row.
//! Every cell with a coverage other than zero becomes one point; the cells
//! are walked column by column, each column from the top.

use vstd::prelude::*;
use crate::partition::point_models;
use crate::point::Point;

verus! {

/// What a glyph is: where it stands relative to the text's origin, its
/// extent in cells, and the coverage of each cell, row after row.
pub ghost struct GlyphModel {
    pub x: int,
    pub y: int,
    pub width: nat,
    pub height: nat,
    pub coverage: Seq<u8>,
}

/// A rasterised glyph. Its bitmap always holds exactly one value for each
/// cell.
#[derive(Debug)]
pub struct Glyph {
    x: i32,
    y: i32,
    width: usize,
    height: usize,
    coverage: Vec<u8>,
}

impl View for Glyph {
    type V = GlyphModel;

    closed spec fn view(&self) -> GlyphModel {
        GlyphModel {
            x: self.x as int,
            y: self.y as int,
            width: self.width as nat,
            height: self.height as nat,
            coverage: self.coverage@,
        }
    }
}

/// The column of cell `k` in the column-by-column walk.
pub open spec fn cell_column(glyph: GlyphModel, k: int) -> int {
    k / (glyph.height as int)
}

/// The row of cell `k` in the column-by-column walk.
pub open spec fn cell_row(glyph: GlyphModel, k: int) -> int {
    k % (glyph.height as int)
}

/// Whether cell `k` of the walk has any coverage.
pub open spec fn cell_lit(glyph: GlyphModel, k: int) -> bool {
    glyph.coverage[cell_column(glyph, k) + glyph.width * cell_row(glyph, k)] != 0
}

/// The screen point of cell `k` for a text whose origin is `(x, y)`. A
/// coordinate beyond 32 bits is cut to its low 32 bits.
pub open spec fn cell_point(glyph: GlyphModel, x: i32, y: i32, k: int) -> (int, int) {
    (
        (x + glyph.x + cell_column(glyph, k)) as i32 as int,
        (y + glyph.y + cell_row(glyph, k)) as i32 as int,
    )
}

/// The points of the lit cells among the first `k` cells of the walk.
pub open spec fn glyph_points_upto(glyph: GlyphModel, x: i32, y: i32, k: nat) -> Seq<(int, int)>
    decreases k,
{
    if k == 0 {
        Seq::<(int, int)>::empty()
    } else {
        let rest = glyph_points_upto(glyph, x, y, (k - 1) as nat);
        if cell_lit(glyph, k - 1) {
            rest.push(cell_point(glyph, x, y, k - 1))
        } else {
            rest
        }
    }
}

/// The points of a glyph's lit cells, in the order of the walk.
pub open spec fn glyph_points(glyph: GlyphModel, x: i32, y: i32) -> Seq<(int, int)> {
    glyph_points_upto(glyph, x, y, glyph.width * glyph.height)
}

/// The models of a run of glyphs, in order.
pub open spec fn glyph_models(glyphs: Seq<Glyph>) -> Seq<GlyphModel> {
    Seq::new(glyphs.len(), |i: int| glyphs[i]@)
}

/// The points of a text: those of its glyphs, glyph after glyph.
pub open spec fn text_points(glyphs: Seq<GlyphModel>, x: i32, y: i32) -> Seq<(int, int)>
    decreases glyphs.len(),
{
    if glyphs.len() == 0 {
        Seq::<(int, int)>::empty()
    } else {
        text_points(glyphs.drop_last(), x, y) + glyph_points(glyphs.last(), x, y)
    }
}

/// A point is among the first `k` cells' points exactly when it is the
/// point of a lit cell among them.
pub proof fn lemma_glyph_points_are_lit_cells(
    glyph: GlyphModel,
    x: i32,
    y: i32,
    k: nat,
    p: (int, int),
)
    ensures
        glyph_points_upto(glyph, x, y, k).contains(p) <==> exists|c: int|
            0 <= c < k && cell_lit(glyph, c) && #[trigger] cell_point(glyph, x, y, c) == p,
    decreases k,
{
    if k > 0 {
        let j = (k - 1) as nat;
        let rest = glyph_points_upto(glyph, x, y, j);
        let all = glyph_points_upto(glyph, x, y, k);
        lemma_glyph_points_are_lit_cells(glyph, x, y, j, p);
        if all.contains(p) {
            let i = choose|i: int| 0 <= i < all.len() && all[i] == p;
            if cell_lit(glyph, j as int) && i == rest.len() {
                assert(cell_point(glyph, x, y, j as int) == p);
            } else {
                assert(rest[i] == p);
                assert(rest.contains(p));
            }
        }
        if exists|c: int|
            0 <= c < k && cell_lit(glyph, c) && #[trigger] cell_point(glyph, x, y, c) == p {
            let c = choose|c: int|
                0 <= c < k && cell_lit(glyph, c) && #[trigger] cell_point(glyph, x, y, c) == p;
            if c == j {
                assert(all[rest.len() as int] == p);
            } else {
                assert(rest.contains(p));
                let i = choose|i: int| 0 <= i < rest.len() && rest[i] == p;
                assert(all[i] == p);
            }
        }
    }
}

impl Glyph {
    #[verifier::type_invariant]
    spec fn well_formed(self) -> bool {
        self.coverage@.len() == self.width * self.height
    }

    /// A glyph from its place, its extent and its bitmap; `None` where the
    /// bitmap does not hold exactly one value for each cell.
    pub fn new(x: i32, y: i32, width: usize, height: usize, coverage: Vec<u8>) -> (glyph: Option<
        Self,
    >)
        ensures
            coverage@.len() == width * height ==> glyph is Some && glyph->Some_0@ == (GlyphModel {
                x: x as int,
                y: y as int,
                width: width as nat,
                height: height as nat,
                coverage: coverage@,
            }),
            coverage@.len() != width * height ==> glyph is None,
    {
        assert(width as u128 * height as u128 <= u128::MAX) by (nonlinear_arith)
            requires
                width <= 0xFFFF_FFFF_FFFF_FFFF,
                height <= 0xFFFF_FFFF_FFFF_FFFF,
        ;
        if width as u128 * height as u128 == coverage.len() as u128 {
            Some(Glyph { x, y, width, height, coverage })
        } else {
            None
        }
    }

    /// Appends the points of this glyph's lit cells to `points`, for a text
    /// whose origin is `(x, y)`.
    pub fn append_points(&self, x: i32, y: i32, points: &mut Vec<Point>)
        ensures
            point_models(final(points)@) == point_models(old(points)@) + glyph_points(self@, x, y),
    {
        proof {
            use_type_invariant(self);
        }
        let ghost before = point_models(points@);
        let cells = self.coverage.len();
        let mut k: usize = 0;
        assert(point_models(points@) =~= before + glyph_points_upto(self@, x, y, 0));
        while k < cells
            invariant
                k <= cells,
                cells == self.width * self.height,
                cells == self.coverage@.len(),
                point_models(points@) == before + glyph_points_upto(self@, x, y, k as nat),
            decreases cells - k,
        {
            assert(self.height > 0) by (nonlinear_arith)
                requires
                    k < self.width * self.height,
            ;
            let column = k / self.height;
            let row = k % self.height;
            proof {
                let h = self.height as int;
                let w = self.width as int;
                vstd::arithmetic::div_mod::lemma_fundamental_div_mod(k as int, h);
                assert(column < w) by (nonlinear_arith)
                    requires
                        k == h * column + row,
                        0 <= row,
                        k < w * h,
                        h > 0,
                        0 <= column,
                ;
                assert(column + w * row < w * h) by (nonlinear_arith)
                    requires
                        0 <= column < w,
                        0 <= row < h,
                ;
            }
            if self.coverage[column + self.width * row] != 0 {
                let px: i32 = #[verifier::truncate] ((x as i128 + self.x as i128 + column as i128)
                    as i32);
                let py: i32 = #[verifier::truncate] ((y as i128 + self.y as i128 + row as i128)
                    as i32);
                let ghost so_far = points@;
                points.push(Point::new(px, py));
                assert(point_models(points@) =~= point_models(so_far).push(
                    cell_point(self@, x, y, k as int),
                ));
            }
            k = k + 1;
            assert(point_models(points@) =~= before + glyph_points_upto(self@, x, y, k as nat));
        }
    }
}

/// The points of a text whose origin is `(x, y)`.
pub fn text_coordinates(glyphs: &[Glyph], x: i32, y: i32) -> (points: Vec<Point>)
    ensures
        point_models(points@) == text_points(glyph_models(glyphs@), x, y),
{
    let ghost models = glyph_models(glyphs@);
    let mut points: Vec<Point> = Vec::new();
    let mut i: usize = 0;
    assert(models.take(0) =~= Seq::<GlyphModel>::empty());
    assert(point_models(points@) =~= text_points(models.take(0), x, y));
    while i < glyphs.len()
        invariant
            i <= glyphs@.len(),
            models == glyph_models(glyphs@),
            point_models(points@) == text_points(models.take(i as int), x, y),
        decreases glyphs@.len() - i,
    {
        proof {
            assert(models.take(i + 1).drop_last() =~= models.take(i as int));
            assert(models.take(i + 1).last() == glyphs@[i as int]@);
        }
        glyphs[i].append_points(x, y, &mut points);
        i = i + 1;
    }
    assert(models.take(glyphs@.len() as int) =~= models);
    points
}

} // verus!
