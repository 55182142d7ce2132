//! The supersampled occupancy canvas and the plotting of trajectory points.

use vstd::prelude::*;
use crate::canvas::{lemma_index_of, Canvas, DARK, LIT};
use crate::config::{max_cells, spec_super_dimensions, super_dimensions, ConfigError};

verus! {

/// Lights the cell at `index`.
fn light(cells: &mut Vec<u8>, index: usize)
    requires
        index < old(cells)@.len(),
    ensures
        final(cells)@ == old(cells)@.update(index as int, LIT),
    no_unwind
{
    cells[index] = LIT;
}

/// The supersampled canvas of one rendering run.
pub struct SuperBuffer {
    width: u32,
    height: u32,
    cells: Vec<u8>,
}

impl View for SuperBuffer {
    type V = Canvas;

    closed spec fn view(&self) -> Canvas {
        Canvas { width: self.width as nat, height: self.height as nat, cells: self.cells@ }
    }
}

impl SuperBuffer {
    /// Every buffer holds a well-formed canvas.
    #[verifier::type_invariant]
    closed spec fn inv(&self) -> bool {
        self@.wf()
    }

    /// A canvas of `width` by `height` cells, all dark. Fails with
    /// `ZeroDimension` if a side is zero and with `TooLarge` if the cells would
    /// not fit in one allocation.
    pub fn new(width: u32, height: u32) -> (r: Result<SuperBuffer, ConfigError>)
        ensures
            match r {
                Ok(buffer) => {
                    &&& width >= 1 && height >= 1 && width * height <= max_cells()
                    &&& buffer@.wf()
                    &&& buffer@ == Canvas::blank(width as nat, height as nat)
                },
                Err(e) => if width == 0 || height == 0 {
                    e == ConfigError::ZeroDimension
                } else {
                    e == ConfigError::TooLarge && width * height > max_cells()
                },
            },
    {
        if width == 0 || height == 0 {
            return Err(ConfigError::ZeroDimension);
        }
        assert(width * height <= 0xffff_ffff * 0xffff_ffff) by (nonlinear_arith)
            requires
                width <= 0xffff_ffff,
                height <= 0xffff_ffff,
        ;
        let area: u64 = width as u64 * height as u64;
        if area > isize::MAX as u64 {
            return Err(ConfigError::TooLarge);
        }
        let cells: Vec<u8> = vec![DARK; area as usize];
        let buffer = SuperBuffer { width, height, cells };
        assert(buffer@.cells =~= Canvas::blank(width as nat, height as nat).cells);
        Ok(buffer)
    }

    /// The blank canvas for an output of `width` by `height` pixels rendered at
    /// `factor` samples per pixel side: `width * factor` columns and
    /// `height * factor` rows. Fails as `super_dimensions` and `new` do.
    pub fn for_output(width: u32, height: u32, factor: u32) -> (r: Result<
        SuperBuffer,
        ConfigError,
    >)
        ensures
            match spec_super_dimensions(width, height, factor) {
                Ok((super_width, super_height)) => match r {
                    Ok(buffer) => {
                        &&& super_width * super_height <= max_cells()
                        &&& buffer@.wf()
                        &&& buffer@ == Canvas::blank(super_width as nat, super_height as nat)
                    },
                    Err(e) => e == ConfigError::TooLarge && super_width * super_height
                        > max_cells(),
                },
                Err(refusal) => r matches Err(e) && e == refusal,
            },
    {
        match super_dimensions(width, height, factor) {
            Ok((super_width, super_height)) => {
                assert(width * factor >= 1 && height * factor >= 1) by (nonlinear_arith)
                    requires
                        width >= 1,
                        height >= 1,
                        factor >= 1,
                ;
                SuperBuffer::new(super_width, super_height)
            },
            Err(e) => Err(e),
        }
    }

    /// Number of columns.
    pub fn width(&self) -> (w: u32)
        ensures
            w == self@.width,
            self@.wf(),
    {
        proof {
            use_type_invariant(self);
        }
        self.width
    }

    /// Number of rows.
    pub fn height(&self) -> (h: u32)
        ensures
            h == self@.height,
            self@.wf(),
    {
        proof {
            use_type_invariant(self);
        }
        self.height
    }

    /// The cells, row by row.
    pub fn cells(&self) -> (cells: &[u8])
        ensures
            cells@ == self@.cells,
            self@.wf(),
    {
        proof {
            use_type_invariant(self);
        }
        self.cells.as_slice()
    }

    /// Position among the cells of the pixel at column `px`, row `py`, if the
    /// pixel is on the canvas.
    fn cell_of(&self, px: i64, py: i64) -> (r: Option<usize>)
        ensures
            self@.wf(),
            match r {
                Some(index) => self@.holds((px, py)) && index == self@.index_of((px, py)) && index
                    < self@.cells.len(),
                None => !self@.holds((px, py)),
            },
    {
        proof {
            use_type_invariant(self);
        }
        if 0 <= px && px < self.width as i64 && 0 <= py && py < self.height as i64 {
            let column: usize = px as usize;
            let row: usize = py as usize;
            let stride: usize = self.width as usize;
            proof {
                lemma_index_of(self@, (px, py), (px, py));
                assert(self@.index_of((px, py)) == row * stride + column);
                assert(0 <= row * stride) by (nonlinear_arith);
                assert(self.cells@.len() == self.cells.len());
            }
            Some(row * stride + column)
        } else {
            None
        }
    }

    /// Whether the pixel at column `px`, row `py` is on the canvas and lit.
    pub fn is_lit(&self, px: i64, py: i64) -> (r: bool)
        ensures
            r == self@.lit((px, py)),
    {
        match self.cell_of(px, py) {
            Some(index) => self.cells[index] == LIT,
            None => false,
        }
    }

    /// Plots one point given by its pixel position (column `px`, row `py`):
    /// lights its cell if the position is on the canvas and drops the point if
    /// it is not.
    pub fn plot(&mut self, px: i64, py: i64)
        ensures
            final(self)@ == old(self)@.plot((px, py)),
            final(self)@.wf(),
    {
        match self.cell_of(px, py) {
            Some(index) => {
                light(&mut self.cells, index);
            },
            None => {},
        }
    }

    /// Plots every point of `points`, in order.
    pub fn plot_all(&mut self, points: &[(i64, i64)])
        ensures
            final(self)@ == old(self)@.rasterize(points@),
            final(self)@.wf(),
    {
        proof {
            use_type_invariant(&*self);
        }
        let mut done: usize = 0;
        while done < points.len()
            invariant
                done <= points.len(),
                self@.wf(),
                self@ == old(self)@.rasterize(points@.take(done as int)),
            decreases points.len() - done,
        {
            let (px, py) = points[done];
            self.plot(px, py);
            proof {
                let upto = points@.take(done + 1);
                assert(upto.drop_last() =~= points@.take(done as int));
                assert(upto.last() == (px, py));
            }
            done += 1;
        }
        proof {
            assert(points@.take(points@.len() as int) =~= points@);
        }
    }
}

} // verus!
