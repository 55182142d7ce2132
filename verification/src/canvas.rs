//! The mathematical model of the occupancy canvas, and what plotting does to
//! it whatever the order and the number of the points plotted.

use vstd::prelude::*;

verus! {

/// Intensity of a cell that no point has reached.
pub const DARK: u8 = 0;

/// Intensity of a cell that at least one point has reached.
pub const LIT: u8 = 255;

/// A grid of 8-bit intensities: `height` rows of `width` cells each, stored
/// row by row.
pub struct Canvas {
    pub width: nat,
    pub height: nat,
    pub cells: Seq<u8>,
}

impl Canvas {
    /// The canvas has at least one row and one column, and every cell is
    /// present.
    pub open spec fn sized(self) -> bool {
        &&& self.width >= 1
        &&& self.height >= 1
        &&& self.cells.len() == self.width * self.height
    }

    /// The canvas is sized and every cell is either dark or lit.
    pub open spec fn wf(self) -> bool {
        &&& self.sized()
        &&& forall|i: int|
            0 <= i < self.cells.len() ==> #[trigger] self.cells[i] == DARK || self.cells[i] == LIT
    }

    /// The canvas of the given size with every cell dark.
    pub open spec fn blank(width: nat, height: nat) -> Canvas {
        Canvas { width, height, cells: Seq::new(width * height, |i: int| DARK) }
    }

    /// Whether the pixel `p`, given as (column, row), lies on the canvas.
    pub open spec fn holds(self, p: (i64, i64)) -> bool {
        0 <= p.0 < self.width && 0 <= p.1 < self.height
    }

    /// Position in `cells` of the pixel `p`.
    pub open spec fn index_of(self, p: (i64, i64)) -> int {
        p.1 * self.width + p.0
    }

    /// Whether the pixel `p` is on the canvas and its cell is lit.
    pub open spec fn lit(self, p: (i64, i64)) -> bool {
        self.holds(p) && self.cells[self.index_of(p)] == LIT
    }

    /// Whether some point of `points` is on the canvas and falls on cell `i`.
    pub open spec fn reached(self, points: Seq<(i64, i64)>, i: int) -> bool {
        exists|k: int|
            0 <= k < points.len() && self.holds(#[trigger] points[k]) && self.index_of(points[k])
                == i
    }

    /// The canvas after one point: its cell lit if the point is on the canvas,
    /// nothing changed if it is not.
    pub open spec fn plot(self, p: (i64, i64)) -> Canvas {
        if self.holds(p) {
            Canvas { cells: self.cells.update(self.index_of(p), LIT), ..self }
        } else {
            self
        }
    }

    /// The canvas after all of `points`, plotted in order.
    pub open spec fn rasterize(self, points: Seq<(i64, i64)>) -> Canvas
        decreases points.len(),
    {
        if points.len() == 0 {
            self
        } else {
            self.rasterize(points.drop_last()).plot(points.last())
        }
    }
}

/// A pixel on the canvas has its cell inside the cell sequence, and two pixels
/// on the canvas share a cell only if they are the same pixel.
pub proof fn lemma_index_of(c: Canvas, p: (i64, i64), q: (i64, i64))
    requires
        c.cells.len() == c.width * c.height,
        c.holds(p),
    ensures
        0 <= c.index_of(p) < c.cells.len(),
        c.holds(q) && c.index_of(p) == c.index_of(q) ==> p == q,
{
    let w = c.width as int;
    let h = c.height as int;
    let (px, py) = (p.0 as int, p.1 as int);
    assert(0 <= py * w + px < w * h) by (nonlinear_arith)
        requires
            0 <= px < w,
            0 <= py < h,
    ;
    if c.holds(q) && c.index_of(p) == c.index_of(q) {
        let (qx, qy) = (q.0 as int, q.1 as int);
        assert(py == qy && px == qx) by (nonlinear_arith)
            requires
                0 <= px < w,
                0 <= qx < w,
                py * w + px == qy * w + qx,
        ;
    }
}

/// Plotting keeps a canvas well formed and never changes its size.
pub proof fn lemma_plot_wf(c: Canvas, p: (i64, i64))
    requires
        c.wf(),
    ensures
        c.plot(p).wf(),
        c.plot(p).width == c.width,
        c.plot(p).height == c.height,
{
    if c.holds(p) {
        lemma_index_of(c, p, p);
    }
}

/// Every cell after rasterization is lit if a point of the trajectory fell on
/// it and is what it was before if none did; the size does not change.
pub proof fn lemma_rasterize_cells(c: Canvas, points: Seq<(i64, i64)>)
    requires
        c.cells.len() == c.width * c.height,
    ensures
        c.rasterize(points).width == c.width,
        c.rasterize(points).height == c.height,
        c.rasterize(points).cells.len() == c.cells.len(),
        forall|i: int|
            0 <= i < c.cells.len() ==> #[trigger] c.rasterize(points).cells[i] == (if c.reached(
                points,
                i,
            ) {
                LIT
            } else {
                c.cells[i]
            }),
    decreases points.len(),
{
    if points.len() > 0 {
        let front = points.drop_last();
        let p = points.last();
        let before = c.rasterize(front);
        lemma_rasterize_cells(c, front);
        if before.holds(p) {
            lemma_index_of(before, p, p);
        }
        assert forall|i: int| 0 <= i < c.cells.len() implies #[trigger] c.rasterize(
            points,
        ).cells[i] == (if c.reached(points, i) {
            LIT
        } else {
            c.cells[i]
        }) by {
            if c.reached(front, i) {
                let k = choose|k: int|
                    0 <= k < front.len() && c.holds(#[trigger] front[k]) && c.index_of(front[k])
                        == i;
                assert(points[k] == front[k]);
            }
            if c.holds(p) && c.index_of(p) == i {
                assert(points[points.len() - 1] == p);
            }
            if c.reached(points, i) {
                let k = choose|k: int|
                    0 <= k < points.len() && c.holds(#[trigger] points[k]) && c.index_of(points[k])
                        == i;
                if k < front.len() {
                    assert(front[k] == points[k]);
                }
            }
        }
    }
}

/// Rasterization keeps a canvas well formed.
pub proof fn lemma_rasterize_wf(c: Canvas, points: Seq<(i64, i64)>)
    requires
        c.wf(),
    ensures
        c.rasterize(points).wf(),
        c.rasterize(points).width == c.width,
        c.rasterize(points).height == c.height,
{
    lemma_rasterize_cells(c, points);
}

/// The cells that a trajectory lights are exactly the pixels on the canvas
/// that occur in it: a pixel is lit afterwards if and only if it was lit
/// before or is one of the points.
pub proof fn lemma_rasterize_lit(c: Canvas, points: Seq<(i64, i64)>, q: (i64, i64))
    requires
        c.wf(),
    ensures
        c.rasterize(points).lit(q) <==> c.lit(q) || (c.holds(q) && points.contains(q)),
{
    lemma_rasterize_cells(c, points);
    if c.holds(q) {
        lemma_index_of(c, q, q);
        let i = c.index_of(q);
        if c.reached(points, i) {
            let k = choose|k: int|
                0 <= k < points.len() && c.holds(#[trigger] points[k]) && c.index_of(points[k])
                    == i;
            lemma_index_of(c, q, points[k]);
        }
        if points.contains(q) {
            let k = choose|k: int| 0 <= k < points.len() && points[k] == q;
            assert(c.holds(points[k]) && c.index_of(points[k]) == i);
        }
    }
}

/// Rasterizing one trajectory onto two canvases that are equal to begin with
/// leaves them equal, cell for cell.
pub proof fn lemma_rasterize_repeatable(first: Canvas, second: Canvas, points: Seq<(i64, i64)>)
    requires
        first == second,
    ensures
        first.rasterize(points) == second.rasterize(points),
        first.rasterize(points).cells == second.rasterize(points).cells,
{
}

/// Two points may be plotted in either order.
pub proof fn lemma_plot_commutes(c: Canvas, p: (i64, i64), q: (i64, i64))
    requires
        c.cells.len() == c.width * c.height,
    ensures
        c.plot(p).plot(q) == c.plot(q).plot(p),
{
    if c.holds(p) {
        lemma_index_of(c, p, p);
    }
    if c.holds(q) {
        lemma_index_of(c, q, q);
    }
    assert(c.plot(p).plot(q).cells =~= c.plot(q).plot(p).cells);
}

/// Plotting a point a second time changes nothing.
pub proof fn lemma_plot_idempotent(c: Canvas, p: (i64, i64))
    requires
        c.cells.len() == c.width * c.height,
    ensures
        c.plot(p).plot(p) == c.plot(p),
{
    if c.holds(p) {
        lemma_index_of(c, p, p);
    }
    assert(c.plot(p).plot(p).cells =~= c.plot(p).cells);
}

/// The result of rasterization depends only on which points occur in the
/// trajectory, not on their order nor on how often each occurs.
pub proof fn lemma_rasterize_same_points(c: Canvas, first: Seq<(i64, i64)>, second: Seq<(i64, i64)>)
    requires
        c.cells.len() == c.width * c.height,
        forall|p: (i64, i64)| first.contains(p) <==> second.contains(p),
    ensures
        c.rasterize(first) == c.rasterize(second),
{
    lemma_rasterize_cells(c, first);
    lemma_rasterize_cells(c, second);
    assert forall|i: int| 0 <= i < c.cells.len() implies c.reached(first, i) == c.reached(
        second,
        i,
    ) by {
        if c.reached(first, i) {
            lemma_reached_by_member(c, first, second, i);
        }
        if c.reached(second, i) {
            lemma_reached_by_member(c, second, first, i);
        }
    }
    assert(c.rasterize(first).cells =~= c.rasterize(second).cells);
}

/// A cell reached by one trajectory is reached by any trajectory that holds
/// all the points of the first.
proof fn lemma_reached_by_member(
    c: Canvas,
    first: Seq<(i64, i64)>,
    second: Seq<(i64, i64)>,
    i: int,
)
    requires
        forall|p: (i64, i64)| first.contains(p) ==> second.contains(p),
        c.reached(first, i),
    ensures
        c.reached(second, i),
{
    let k = choose|k: int|
        0 <= k < first.len() && c.holds(#[trigger] first[k]) && c.index_of(first[k]) == i;
    assert(first.contains(first[k]));
    let j = choose|j: int| 0 <= j < second.len() && second[j] == first[k];
    assert(c.holds(second[j]) && c.index_of(second[j]) == i);
}

/// Exchanging two points of a trajectory leaves the result of rasterization
/// unchanged.
pub proof fn lemma_rasterize_swap(c: Canvas, points: Seq<(i64, i64)>, i: int, j: int)
    requires
        c.cells.len() == c.width * c.height,
        0 <= i < points.len(),
        0 <= j < points.len(),
    ensures
        c.rasterize(points.update(i, points[j]).update(j, points[i])) == c.rasterize(points),
{
    let swapped = points.update(i, points[j]).update(j, points[i]);
    assert forall|p: (i64, i64)| swapped.contains(p) <==> points.contains(p) by {
        if swapped.contains(p) {
            let k = choose|k: int| 0 <= k < swapped.len() && swapped[k] == p;
            let from = if k == j {
                i
            } else if k == i {
                j
            } else {
                k
            };
            assert(points[from] == p);
        }
        if points.contains(p) {
            let k = choose|k: int| 0 <= k < points.len() && points[k] == p;
            let to = if k == j {
                i
            } else if k == i {
                j
            } else {
                k
            };
            assert(swapped[to] == p);
        }
    }
    lemma_rasterize_same_points(c, swapped, points);
}

/// Rasterizing a trajectory in two parts, one after the other, gives what
/// rasterizing the whole gives.
pub proof fn lemma_rasterize_concat(c: Canvas, first: Seq<(i64, i64)>, second: Seq<(i64, i64)>)
    ensures
        c.rasterize(first + second) == c.rasterize(first).rasterize(second),
    decreases second.len(),
{
    if second.len() == 0 {
        assert(first + second =~= first);
    } else {
        lemma_rasterize_concat(c, first, second.drop_last());
        assert((first + second).drop_last() =~= first + second.drop_last());
        assert((first + second).last() == second.last());
    }
}

/// Rasterizing a trajectory onto a canvas that already shows it changes
/// nothing.
pub proof fn lemma_rasterize_twice(c: Canvas, points: Seq<(i64, i64)>)
    requires
        c.cells.len() == c.width * c.height,
    ensures
        c.rasterize(points).rasterize(points) == c.rasterize(points),
{
    let once = c.rasterize(points);
    lemma_rasterize_cells(c, points);
    lemma_rasterize_cells(once, points);
    assert forall|i: int| 0 <= i < c.cells.len() implies once.reached(points, i) == c.reached(
        points,
        i,
    ) by {
        if once.reached(points, i) {
            let k = choose|k: int|
                0 <= k < points.len() && once.holds(#[trigger] points[k]) && once.index_of(
                    points[k],
                ) == i;
            assert(c.holds(points[k]) && c.index_of(points[k]) == i);
        }
        if c.reached(points, i) {
            let k = choose|k: int|
                0 <= k < points.len() && c.holds(#[trigger] points[k]) && c.index_of(points[k])
                    == i;
            assert(once.holds(points[k]) && once.index_of(points[k]) == i);
        }
    }
    assert(once.rasterize(points).cells =~= once.cells);
}

/// A trajectory none of whose points is on the canvas leaves every cell as it
/// was.
pub proof fn lemma_rasterize_off_canvas(c: Canvas, points: Seq<(i64, i64)>)
    requires
        forall|k: int| 0 <= k < points.len() ==> !c.holds(#[trigger] points[k]),
    ensures
        c.rasterize(points) == c,
    decreases points.len(),
{
    if points.len() > 0 {
        let front = points.drop_last();
        assert forall|k: int| 0 <= k < front.len() implies !c.holds(#[trigger] front[k]) by {
            assert(front[k] == points[k]);
        }
        lemma_rasterize_off_canvas(c, front);
        assert(!c.holds(points[points.len() - 1]));
    }
}

} // verus!
