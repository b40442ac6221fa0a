//! The flow field: a grid to show it on, a noise sampler, and the scale
//! that takes world coordinates into the sampler's space.
use vstd::prelude::*;
use vstd::pervasive::unreached;
use crate::fixed::{lemma_trunc_div_bounds, mul_div, saturate, saturating, trunc_div, ONE};
use crate::geometry::grid::{Grid, GridIterator};
use crate::geometry::rect::Rect;
use crate::geometry::vector::Point2;
use crate::random::random_range;

verus! {

/// The margin, five units, by which the grid reaches beyond the window
/// vertically; on the left the grid starts five margins inside the window.
pub const MARGIN: i64 = 5_000_000;

/// The number of rows of the grid.
pub const ROWS: usize = 30;

/// The number of columns of the grid.
pub const COLS: usize = 30;

/// The horizontal scale, in hundredths of the window's width.
pub const SCALE_X_PERCENT: i64 = 23;

/// The vertical scale, in hundredths of the window's height.
pub const SCALE_Y_PERCENT: i64 = 100;

/// The bound below which the sampler's seed is drawn.
pub const SEED_BOUND: i64 = 500;

/// A full turn in radians.
pub const TAU: i64 = 6_283_185;

/// The length, in units, of the stroke that shows the field's direction at a grid point.
pub const GLYPH_LENGTH: i64 = 15;

/// `noise::Perlin`, the generator of gradient noise.
#[verifier::external_type_specification]
#[verifier::external_body]
pub struct ExPerlin(noise::Perlin);

/// The generator that `noise::Perlin::new` builds from `seed`.
pub uninterp spec fn perlin_seeded(seed: u32) -> noise::Perlin;

/// `noise::Perlin::new` derives its permutation table from the seed alone,
/// so equal seeds give equal generators.
pub assume_specification[ noise::Perlin::new ](seed: u32) -> (perlin: noise::Perlin)
    ensures
        perlin == perlin_seeded(seed),
;

/// A flow field over a window.
pub struct FlowField {
    grid: Grid,
    sampler: noise::Perlin,
    scale: (i64, i64),
}

/// The scale that belongs to a window's extent: `percent` hundredths of it.
pub open spec fn scale_of(extent: int, percent: int) -> int {
    saturate(trunc_div(extent * percent, 100))
}

impl FlowField {
    /// The grid on which the field is shown.
    pub closed spec fn grid(&self) -> Grid {
        self.grid
    }

    /// The generator whose noise gives the field its directions.
    pub closed spec fn generator(&self) -> noise::Perlin {
        self.sampler
    }

    /// The horizontal and the vertical scale.
    pub closed spec fn factors(&self) -> (int, int) {
        (self.scale.0 as int, self.scale.1 as int)
    }

    /// The grid has cells and both scales are positive.
    pub open spec fn wf(&self) -> bool {
        &&& self.grid().wf()
        &&& self.factors().0 > 0
        &&& self.factors().1 > 0
    }

    #[verifier::type_invariant]
    spec fn inv(&self) -> bool {
        self.wf()
    }

    /// The window is large enough for a field: its edges are in order and
    /// neither scale comes out as zero.
    pub open spec fn accepts(window: Rect) -> bool {
        &&& window.wf()
        &&& scale_of(window.w(), SCALE_X_PERCENT as int) > 0
        &&& scale_of(window.h(), SCALE_Y_PERCENT as int) > 0
    }

    /// The field over `window` is laid out as the window prescribes: the
    /// grid spans from five margins right of the left edge to the right
    /// edge, and from one margin below the bottom to one above the top.
    pub open spec fn fits(&self, window: Rect) -> bool {
        &&& self.wf()
        &&& self.grid().x_min() == saturate(window.left + 5 * MARGIN)
        &&& self.grid().x_max() == window.right
        &&& self.grid().y_min() == saturate(window.bottom - MARGIN)
        &&& self.grid().y_max() == saturate(window.top + MARGIN)
        &&& self.grid().rows() == ROWS
        &&& self.grid().cols() == COLS
        &&& self.factors() == (
            scale_of(window.w(), SCALE_X_PERCENT as int),
            scale_of(window.h(), SCALE_Y_PERCENT as int),
        )
    }

    /// Tells whether a field can be built over `window`.
    pub fn is_acceptable(window: &Rect) -> (ok: bool)
        ensures
            ok == Self::accepts(*window),
    {
        if window.left > window.right || window.bottom > window.top {
            return false;
        }
        let w = window.right as i128 - window.left as i128;
        let h = window.top as i128 - window.bottom as i128;
        saturating(mul_div(w, SCALE_X_PERCENT, 100)) > 0 && saturating(
            mul_div(h, SCALE_Y_PERCENT, 100),
        ) > 0
    }

    /// Builds the field over `window` with a sampler seeded by a number
    /// drawn at random below [`SEED_BOUND`].
    pub fn new(window: &Rect) -> (field: FlowField)
        requires
            Self::accepts(*window),
        ensures
            field.fits(*window),
            exists|seed: u32| seed < SEED_BOUND && field.generator() == perlin_seeded(seed),
    {
        let seed = random_range(0, SEED_BOUND) as u32;
        FlowField::with_seed(window, seed)
    }

    /// Builds the field over `window` with a sampler seeded by `seed`.
    pub fn with_seed(window: &Rect, seed: u32) -> (field: FlowField)
        requires
            Self::accepts(*window),
        ensures
            field.fits(*window),
            field.generator() == perlin_seeded(seed),
    {
        let x_min = saturating(window.left as i128 + 5 * (MARGIN as i128));
        let y_min = saturating(window.bottom as i128 - MARGIN as i128);
        let y_max = saturating(window.top as i128 + MARGIN as i128);
        let w = window.right as i128 - window.left as i128;
        let h = window.top as i128 - window.bottom as i128;
        let scale_x = saturating(mul_div(w, SCALE_X_PERCENT, 100));
        let scale_y = saturating(mul_div(h, SCALE_Y_PERCENT, 100));
        match Grid::new(x_min, window.right, y_min, y_max, ROWS, COLS) {
            Ok(grid) => FlowField {
                grid,
                sampler: noise::Perlin::new(seed),
                scale: (scale_x, scale_y),
            },
            Err(_) => unreached(),
        }
    }

    /// Takes a world coordinate into the sampler's space: each component
    /// divided by its scale.
    pub fn scale(&self, x: i64, y: i64) -> (r: (i64, i64))
        ensures
            self.wf(),
            r.0 == saturate(trunc_div(x * ONE, self.factors().0)),
            r.1 == saturate(trunc_div(y * ONE, self.factors().1)),
    {
        proof {
            use_type_invariant(self);
        }
        (
            saturating(mul_div(x as i128, ONE, self.scale.0 as i128)),
            saturating(mul_div(y as i128, ONE, self.scale.1 as i128)),
        )
    }

    /// Normalizes a value of the sampler, which ranges from minus one to
    /// one, to the range from zero to one.
    pub fn sample(&self, noise_value: i64) -> (r: i64)
        ensures
            r == trunc_div(noise_value + ONE, 2),
            -ONE <= noise_value <= ONE ==> 0 <= r <= ONE,
    {
        ((noise_value as i128 + ONE as i128) / 2) as i64
    }

    /// The direction of the flow, in radians, that belongs to a normalized
    /// sample: the sample's share of a full turn.
    pub fn angle(sample: i64) -> (r: i64)
        ensures
            r == saturate(trunc_div(sample * TAU, ONE as int)),
            0 <= sample <= ONE ==> 0 <= r <= TAU,
    {
        proof {
            lemma_trunc_div_bounds(sample * TAU, ONE as int);
            if 0 <= sample <= ONE {
                assert(0 <= sample * TAU <= ONE * TAU) by (nonlinear_arith)
                    requires
                        0 <= sample <= ONE,
                        TAU == 6_283_185,
                ;
            }
        }
        saturating(mul_div(sample as i128, TAU, ONE as i128))
    }

    /// The far end of the stroke that shows, at the point `(x, y)`, the
    /// direction `heading` of the flow: [`GLYPH_LENGTH`] times the heading away.
    pub fn glyph_end(x: i64, y: i64, heading: Point2) -> (end: Point2)
        ensures
            end.x == saturate(x + GLYPH_LENGTH * heading.x),
            end.y == saturate(y + GLYPH_LENGTH * heading.y),
    {
        let length: i128 = GLYPH_LENGTH as i128;
        assert(length == 15);
        Point2 {
            x: saturating(x as i128 + length * (heading.x as i128)),
            y: saturating(y as i128 + length * (heading.y as i128)),
        }
    }

    /// The generator to sample the field with.
    pub fn sampler(&self) -> (s: &noise::Perlin)
        ensures
            *s == self.generator(),
    {
        &self.sampler
    }

    /// Starts a walk over the grid's points.
    pub fn iter(&self) -> (it: GridIterator)
        ensures
            self.wf(),
            it.wf(),
            it.grid() == self.grid(),
            it.index() == 0,
            it.remaining() == self.grid().points_spec(),
    {
        proof {
            use_type_invariant(self);
        }
        self.grid.iter()
    }
}

} // verus!
