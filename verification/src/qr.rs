//! Coordinate overlay for a finished scannable-code module grid.
//!
//! The grid itself arrives finished from an encoding collaborator: the
//! core never computes error-correction bits, module placement or
//! masking.  The overlay maps the grid into pixel space with an integer
//! scale, a uniform border and an optional inversion, resolved per pixel
//! at draw time — no intermediate bitmap is rasterized.

use vstd::prelude::*;

use crate::geometry::{Point, Rect};
use crate::PTouchError;

verus! {

/// Largest accepted module-grid side length: the largest `n` whose square
/// module count stays within a 32-bit signed coordinate space.
pub const MAX_GRID_SIDE: usize = 46340;

/// A finished square boolean module grid of known side length.
pub struct ModuleGrid {
    size: usize,
    modules: Vec<bool>,
}

impl ModuleGrid {
    #[verifier::type_invariant]
    spec fn inv(self) -> bool {
        &&& self.size <= MAX_GRID_SIDE
        &&& self.modules@.len() == self.size * self.size
    }

    /// The side length of the square grid.
    pub closed spec fn side(self) -> nat {
        self.size as nat
    }

    /// The module at `(x, y)`, row-major; coordinates outside the grid
    /// read off, so no lookup can index out of range.
    pub closed spec fn module_at(self, x: int, y: int) -> bool {
        &&& 0 <= x < self.side()
        &&& 0 <= y < self.side()
        &&& self.modules@[y * self.side() + x]
    }

    /// Wrap a finished module grid.  The declared side length must match
    /// the module count exactly and stay within the machine bound.
    pub fn new(size: usize, modules: Vec<bool>) -> (r: Result<ModuleGrid, PTouchError>)
        ensures
            r is Ok <==> (size <= MAX_GRID_SIDE && modules@.len() == size * size),
            r is Err ==> r == Err::<ModuleGrid, PTouchError>(PTouchError::InvalidModuleGrid),
            r matches Ok(g) ==> {
                &&& g.side() == size
                &&& forall|x: int, y: int|
                    0 <= x < size && 0 <= y < size ==> #[trigger] g.module_at(x, y) == modules@[y
                        * size + x]
            },
    {
        if size > MAX_GRID_SIDE {
            return Err(PTouchError::InvalidModuleGrid);
        }
        proof {
            assert(size * size <= MAX_GRID_SIDE * MAX_GRID_SIDE) by (nonlinear_arith)
                requires
                    size <= MAX_GRID_SIDE,
            ;
        }
        let expected = size * size;
        if modules.len() != expected {
            return Err(PTouchError::InvalidModuleGrid);
        }
        Ok(ModuleGrid { size, modules })
    }

    /// The side length of the square grid.
    pub fn size(&self) -> (r: usize)
        ensures
            r == self.side(),
            r <= MAX_GRID_SIDE,
    {
        proof {
            use_type_invariant(self);
        }
        self.size
    }

    /// The module at `(x, y)`; out-of-range coordinates read off.
    pub fn get_module(&self, x: i32, y: i32) -> (r: bool)
        ensures
            r == self.module_at(x as int, y as int),
    {
        proof {
            use_type_invariant(self);
        }
        if x < 0 || y < 0 {
            return false;
        }
        let xu = x as usize;
        let yu = y as usize;
        if xu >= self.size || yu >= self.size {
            return false;
        }
        proof {
            assert(yu * self.size + xu < self.size * self.size && self.size * self.size
                <= MAX_GRID_SIDE * MAX_GRID_SIDE) by (nonlinear_arith)
                requires
                    xu < self.size,
                    yu < self.size,
                    self.size <= MAX_GRID_SIDE,
            ;
        }
        self.modules[yu * self.size + xu]
    }
}

/// A module grid styled for drawing: placement, integer scale, border
/// width and inversion, resolved per pixel at draw time.
pub struct StyledQrCode {
    pub qr_code: ModuleGrid,
    pub position: Point,
    pub border_size_px: u32,
    pub scale: u32,
    pub is_inverted: bool,
}

impl StyledQrCode {
    /// The styling is drawable: modules are at least one pixel wide and
    /// the full extent fits the signed 32-bit coordinate space.
    pub open spec fn wf(self) -> bool {
        &&& self.scale >= 1
        &&& self.qr_code.side() * self.scale + 2 * self.border_size_px <= i32::MAX
    }

    /// Scaled pixel size of the module body (without the border).
    pub open spec fn body_size_spec(self) -> int {
        self.qr_code.side() * self.scale
    }

    /// Total pixel extent on each axis: body plus border on both sides.
    pub open spec fn extent_spec(self) -> int {
        self.body_size_spec() + 2 * self.border_size_px
    }

    /// Whether a local pixel coordinate lies in border territory.
    pub open spec fn is_border_spec(self, x: int, y: int) -> bool {
        ||| x < self.border_size_px
        ||| x > self.border_size_px + self.body_size_spec()
        ||| y < self.border_size_px
        ||| y > self.border_size_px + self.body_size_spec()
    }

    /// The on/off decision for a local pixel coordinate: border territory
    /// resolves to the inversion base color, anything else maps down to a
    /// module lookup (truncating integer division) XOR the inversion.
    pub open spec fn element_spec(self, x: int, y: int) -> bool {
        if self.is_border_spec(x, y) {
            self.is_inverted
        } else {
            self.qr_code.module_at(
                (x - self.border_size_px) / (self.scale as int),
                (y - self.border_size_px) / (self.scale as int),
            ) != self.is_inverted
        }
    }

    /// The decision for a drawing coordinate: de-translate with respect
    /// to the placement position, then decide locally.
    pub open spec fn element_translated_spec(self, x: int, y: int) -> bool {
        self.element_spec(x - self.position.x, y - self.position.y)
    }

    /// Flip the on/off semantics.
    pub fn inverted(self) -> (r: Self)
        ensures
            r == (StyledQrCode { is_inverted: !self.is_inverted, ..self }),
    {
        let mut s = self;
        s.is_inverted = !s.is_inverted;
        s
    }

    /// Use `scale` pixels per module.
    pub fn with_scale(self, scale: u32) -> (r: Self)
        ensures
            r == (StyledQrCode { scale, ..self }),
    {
        let mut s = self;
        s.scale = scale;
        s
    }

    /// Back to the default styling.
    pub fn reset(self) -> (r: Self)
        ensures
            r == (StyledQrCode {
                qr_code: self.qr_code,
                position: Point { x: 0, y: 0 },
                border_size_px: 2,
                scale: 1,
                is_inverted: false,
            }),
    {
        Self::from(self.qr_code)
    }

    /// Use a border of `border_size_px` pixels on every side.
    pub fn with_border(self, border_size_px: u32) -> (r: Self)
        ensures
            r == (StyledQrCode { border_size_px, ..self }),
    {
        let mut s = self;
        s.border_size_px = border_size_px;
        s
    }

    /// Move the placement position by `by`.
    pub fn translate(&mut self, by: Point)
        requires
            i32::MIN <= old(self).position.x + by.x <= i32::MAX,
            i32::MIN <= old(self).position.y + by.y <= i32::MAX,
        ensures
            *final(self) == (StyledQrCode {
                position: Point {
                    x: (old(self).position.x + by.x) as i32,
                    y: (old(self).position.y + by.y) as i32,
                },
                ..*old(self)
            }),
    {
        self.position = Point { x: self.position.x + by.x, y: self.position.y + by.y };
    }

    /// Decide a pixel by drawing coordinates (i.e. where the overlay is
    /// drawn on a shared buffer): the entry point for drawing code.
    pub fn get_element_translated(&self, draw_point: Point) -> (r: bool)
        requires
            self.wf(),
            i32::MIN <= draw_point.x - self.position.x <= i32::MAX,
            i32::MIN <= draw_point.y - self.position.y <= i32::MAX,
        ensures
            r == self.element_translated_spec(draw_point.x as int, draw_point.y as int),
    {
        self.get_element(
            Point { x: draw_point.x - self.position.x, y: draw_point.y - self.position.y },
        )
    }

    /// Decide a pixel by local coordinates.
    pub fn get_element(&self, point: Point) -> (r: bool)
        requires
            self.wf(),
        ensures
            r == self.element_spec(point.x as int, point.y as int),
    {
        if self.is_border(point) {
            self.is_inverted
        } else {
            let min = self.border_size_px as i32;
            let dx = ((point.x - min) as u32) / self.scale;
            let dy = ((point.y - min) as u32) / self.scale;
            self.qr_code.get_module(dx as i32, dy as i32) ^ self.is_inverted
        }
    }

    /// Scaled pixel size of the module body.
    pub fn body_size(&self) -> (r: u32)
        requires
            self.wf(),
        ensures
            r == self.body_size_spec(),
    {
        let n = self.qr_code.size();
        (n as u32) * self.scale
    }

    /// Whether a local pixel coordinate lies in border territory.
    pub fn is_border(&self, point: Point) -> (r: bool)
        requires
            self.wf(),
        ensures
            r == self.is_border_spec(point.x as int, point.y as int),
    {
        let min = self.border_size_px as i32;
        let max = (self.border_size_px + self.body_size()) as i32;
        point.x < min || point.x > max || point.y < min || point.y > max
    }

    /// The affected pixel region: the placement position together with
    /// the full styled extent, so a drawing driver can iterate exactly
    /// the pixels the overlay decides.
    pub fn bounding_box(&self) -> (r: Rect)
        requires
            self.wf(),
        ensures
            r.top_left == self.position,
            r.width == self.extent_spec(),
            r.height == self.extent_spec(),
    {
        let total = self.body_size() + self.border_size_px * 2;
        Rect { top_left: self.position, width: total, height: total }
    }
}

impl From<ModuleGrid> for StyledQrCode {
    /// The default styling: origin placement, one pixel per module, a
    /// two-pixel border, not inverted.
    fn from(qr_code: ModuleGrid) -> (r: Self) {
        StyledQrCode {
            qr_code,
            position: Point { x: 0, y: 0 },
            scale: 1,
            border_size_px: 2,
            is_inverted: false,
        }
    }
}

impl vstd::std_specs::convert::FromSpecImpl<ModuleGrid> for StyledQrCode {
    open spec fn obeys_from_spec() -> bool {
        true
    }

    open spec fn from_spec(qr_code: ModuleGrid) -> Self {
        StyledQrCode {
            qr_code,
            position: Point { x: 0, y: 0 },
            scale: 1,
            border_size_px: 2,
            is_inverted: false,
        }
    }
}

/// Overlay round trip: on a well-formed, non-inverted overlay, the
/// drawing coordinate at `position + (border, border)` reads the first
/// module of the grid, and every local coordinate in border territory —
/// either axis inside the border margin or beyond the module body —
/// reads off.
pub proof fn lemma_overlay_border(q: StyledQrCode, x: int, y: int)
    requires
        q.wf(),
        !q.is_inverted,
        q.qr_code.side() >= 1,
    ensures
        q.element_translated_spec(
            q.position.x + q.border_size_px,
            q.position.y + q.border_size_px,
        ) == q.qr_code.module_at(0, 0),
        q.is_border_spec(x, y) ==> !q.element_spec(x, y),
{
    assert(q.qr_code.side() * q.scale >= 1) by (nonlinear_arith)
        requires
            q.qr_code.side() >= 1,
            q.scale >= 1,
    ;
    let b = q.border_size_px as int;
    assert(!q.is_border_spec(b, b));
    assert((b - b) / (q.scale as int) == 0);
}

} // verus!
