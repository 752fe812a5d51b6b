//! Render orchestrator: configuration, placement calls, and the
//! orientation transform that turns the composed buffer into the
//! device-ready packed byte matrix.

use vstd::prelude::*;

use crate::display::{
    apply_prefix, byte_matrix_view, bytes_per_col, first_bad, get_bit, packed_bytes_of, Display,
    DisplayView,
};
use crate::geometry::{Pixel, Point};
use crate::qr::{ModuleGrid, StyledQrCode};
use crate::PTouchError;

verus! {

/// The mounting axis of the physical print head relative to the logical
/// composition axis.
#[derive(Debug, Clone, Copy, PartialEq, Eq, Structural)]
pub enum Orientation {
    Horizontal,
    Vertical,
}

/// Configuration of one render instance; the height is fixed for the
/// instance's lifetime.
#[derive(Debug, Clone, Copy, PartialEq, Eq, Structural)]
pub struct RenderConfig {
    pub orientation: Orientation,
    /// Image minimum X size.
    pub min_x: usize,
    /// Image maximum X size (advisory).
    pub max_x: usize,
    /// Image Y size.
    pub y: usize,
}

impl Default for RenderConfig {
    fn default() -> (r: Self)
        ensures
            r == (RenderConfig {
                orientation: Orientation::Vertical,
                min_x: 320,
                max_x: 10240,
                y: 696,
            }),
    {
        Self { min_x: 320, max_x: 10 * 1024, y: 696, orientation: Orientation::Vertical }
    }
}

/// Pixels per module used for a code placement.
pub const QR_SCALE: u32 = 4;

/// Border pixels on every side of a code placement.
pub const QR_BORDER: u32 = 100;

/// The styling a code placement uses: the fixed scale and border, placed
/// at the given anchor, not inverted.
pub open spec fn code_styling(grid: ModuleGrid, point: Point) -> StyledQrCode {
    StyledQrCode {
        qr_code: grid,
        position: point,
        scale: QR_SCALE,
        border_size_px: QR_BORDER,
        is_inverted: false,
    }
}

/// Where the horizontal orientation transform sends a source pixel
/// coordinate, for a source image `w` columns wide.
pub open spec fn horizontal_map(w: int, p: (int, int)) -> (int, int) {
    (p.1, w - 1 - p.0)
}

/// The inverse of [`horizontal_map`].
pub open spec fn horizontal_unmap(w: int, q: (int, int)) -> (int, int) {
    (w - 1 - q.1, q.0)
}

/// The horizontal orientation transform is a bijection on pixel
/// coordinates: composing the map with its inverse (in either order)
/// recovers the coordinate, and the two extents swap exactly.
pub proof fn lemma_horizontal_map_bijective(w: int, h: int, p: (int, int), q: (int, int))
    requires
        0 <= p.0 < w,
        0 <= p.1 < h,
        0 <= q.0 < h,
        0 <= q.1 < w,
    ensures
        horizontal_unmap(w, horizontal_map(w, p)) == p,
        horizontal_map(w, horizontal_unmap(w, q)) == q,
        0 <= horizontal_map(w, p).0 < h && 0 <= horizontal_map(w, p).1 < w,
        0 <= horizontal_unmap(w, q).0 < w && 0 <= horizontal_unmap(w, q).1 < h,
{
}

/// The horizontal orientation transform applied to a whole buffer: a new
/// display whose pixel `(y, width - 1 - x)` holds source pixel `(x, y)`.
/// The extents swap exactly, and every source pixel is carried over.
pub fn transposed(src: &Display) -> (r: Display)
    requires
        src@.width() + 7 <= usize::MAX,
    ensures
        r@.wf(),
        r@.height == src@.width(),
        r@.width() == src@.height,
        forall|a: int, b: int|
            r@.pix(a, b) == (0 <= b < src@.width() && src@.pix(src@.width() - 1 - b, a)),
{
    let (w, h) = src.size();
    let mut out = Display::new(w, h);
    let mut x: usize = 0;
    while x < w
        invariant
            w == src@.width(),
            h == src@.height,
            x <= w,
            out@.wf(),
            out@.height == w,
            out@.width() == h,
            forall|a: int, b: int|
                out@.pix(a, b) == (w - x <= b < w && src@.pix(w - 1 - b, a)),
        decreases w - x,
    {
        let mut yv: usize = 0;
        while yv < h
            invariant
                w == src@.width(),
                h == src@.height,
                x < w,
                yv <= h,
                out@.wf(),
                out@.height == w,
                out@.width() == h,
                forall|a: int, b: int|
                    out@.pix(a, b) == ((w - x <= b < w || (b == w - 1 - x && 0 <= a < yv))
                        && src@.pix(w - 1 - b, a)),
            decreases h - yv,
        {
            let p = match src.get(x, yv) {
                Ok(b) => b,
                Err(_) => {
                    proof {
                        assert(false);
                    }
                    false
                },
            };
            let ghost outpre = out@;
            match out.set(yv, w - 1 - x, p) {
                Ok(()) => {},
                Err(_) => {
                    proof {
                        assert(false);
                    }
                },
            }
            proof {
                assert(out@ == outpre.after_set(yv as int, w - 1 - x, p));
                crate::display::lemma_after_set_pix(outpre, yv as int, w - 1 - x, p);
            }
            yv += 1;
        }
        x += 1;
    }
    out
}

/// The device-transfer layout of a horizontally transformed buffer: one
/// byte column per source row, where bit `7 - (y % 8)` of byte `y / 8`
/// of column `x` holds source pixel `(width - 1 - y, x)`, and every bit
/// past the source width is clear.
pub open spec fn packed_rotated_of(out: Seq<Seq<u8>>, v: DisplayView) -> bool {
    &&& out.len() == v.height
    &&& forall|x: int| 0 <= x < out.len() ==> (#[trigger] out[x]).len() == bytes_per_col(v.width())
    &&& forall|x: int, y: int|
        0 <= x < v.height && 0 <= y < 8 * bytes_per_col(v.width()) ==> get_bit(
            #[trigger] out[x][y / 8],
            (7 - y % 8) as u8,
        ) == (0 <= y < v.width() && v.pix(v.width() - 1 - y, x))
}

/// The render orchestrator: owns the configuration and the framebuffer
/// for one label composition, lowers placement calls into pixel writes,
/// and finalizes into the packed device payload exactly once.
pub struct Render {
    cfg: RenderConfig,
    display: Display,
    finalized: bool,
}

impl Render {
    /// The configuration the instance was created with.
    pub closed spec fn config(self) -> RenderConfig {
        self.cfg
    }

    /// The model of the owned framebuffer.
    pub closed spec fn disp(self) -> DisplayView {
        self.display@
    }

    /// Whether finalize has already produced output.
    pub closed spec fn is_finalized(self) -> bool {
        self.finalized
    }

    /// The instance is consistent: the buffer is well formed and sized
    /// by the configured height.
    pub closed spec fn wf(self) -> bool {
        &&& self.display@.wf()
        &&& self.display@.height == self.cfg.y
        &&& self.cfg.y + 7 <= usize::MAX
    }

    /// Create a new render instance with an empty framebuffer sized from
    /// the configuration.
    pub fn new(cfg: RenderConfig) -> (r: Self)
        requires
            cfg.y + 7 <= usize::MAX,
        ensures
            r.wf(),
            r.config() == cfg,
            !r.is_finalized(),
            r.disp().height == cfg.y,
            r.disp().width() == cfg.min_x,
            forall|a: int, b: int| !r.disp().pix(a, b),
    {
        let display = Display::new(cfg.y, cfg.min_x);
        Self { cfg, display, finalized: false }
    }

    /// Pixel-by-pixel read access for a preview collaborator.
    pub fn get_pixel(&self, x: usize, y: usize) -> (r: Result<Pixel, PTouchError>)
        requires
            x <= i32::MAX,
            y <= i32::MAX,
        ensures
            x < self.disp().width() && y < self.disp().height ==> r == Ok::<Pixel, PTouchError>(
                Pixel {
                    point: Point { x: x as i32, y: y as i32 },
                    on: self.disp().pix(x as int, y as int),
                },
            ),
            !(x < self.disp().width() && y < self.disp().height) ==> r == Err::<Pixel, PTouchError>(
                PTouchError::RenderError,
            ),
    {
        self.display.get_pixel(x, y)
    }

    /// The current logical extent of the owned framebuffer.
    pub fn size(&self) -> (r: (usize, usize))
        ensures
            r.0 == self.disp().width(),
            r.1 == self.disp().height,
    {
        self.display.size()
    }

    /// Place a finished glyph pixel sequence at an anchor point: each
    /// pixel is shifted by the anchor and written through the drawable
    /// capability, aborting at the first out-of-range write.
    pub fn render_text(&mut self, glyphs: &Vec<Pixel>, point: Point) -> (r: Result<
        (),
        PTouchError,
    >)
        requires
            old(self).wf(),
        ensures
            final(self).wf(),
            final(self).config() == old(self).config(),
            final(self).is_finalized() == old(self).is_finalized(),
            old(self).is_finalized() ==> r == Err::<(), PTouchError>(PTouchError::AlreadyFinalized)
                && final(self).disp() == old(self).disp(),
            !old(self).is_finalized() ==> {
                &&& final(self).disp() == apply_prefix(
                    old(self).disp(),
                    glyphs@,
                    point.x as int,
                    point.y as int,
                    first_bad(old(self).disp().height, glyphs@, point.x as int, point.y as int),
                )
                &&& (r is Ok <==> first_bad(
                    old(self).disp().height,
                    glyphs@,
                    point.x as int,
                    point.y as int,
                ) == glyphs@.len())
                &&& (r is Err ==> r == Err::<(), PTouchError>(PTouchError::RenderError))
            },
    {
        if self.finalized {
            return Err(PTouchError::AlreadyFinalized);
        }
        self.display.draw_pixels_at(glyphs, point)
    }

    /// Place a finished module grid as a styled code overlay — fixed
    /// scale and border, anchored at `point`.  The affected region is
    /// bounds-checked up front: on success every pixel of the region
    /// holds the overlay's decision and every other pixel is untouched;
    /// on a bounds error the buffer is unchanged.
    pub fn render_qrcode(&mut self, grid: ModuleGrid, point: Point) -> (r: Result<
        (),
        PTouchError,
    >)
        requires
            old(self).wf(),
        ensures
            final(self).wf(),
            final(self).config() == old(self).config(),
            final(self).is_finalized() == old(self).is_finalized(),
            old(self).is_finalized() ==> r == Err::<(), PTouchError>(PTouchError::AlreadyFinalized)
                && final(self).disp() == old(self).disp(),
            !old(self).is_finalized() ==> ({
                let q = code_styling(grid, point);
                let ext = q.extent_spec();
                &&& (r is Ok <==> point.x >= 0 && point.y >= 0
                    && point.y + ext <= old(self).disp().height)
                &&& (r is Err ==> r == Err::<(), PTouchError>(PTouchError::RenderError)
                    && final(self).disp() == old(self).disp())
                &&& (r is Ok ==> {
                    &&& final(self).disp().height == old(self).disp().height
                    &&& final(self).disp().width() == if point.x + ext > old(self).disp().width() {
                        point.x + ext
                    } else {
                        old(self).disp().width() as int
                    }
                    &&& forall|dx: int, dy: int|
                        0 <= dx < ext && 0 <= dy < ext ==> final(self).disp().pix(
                            point.x + dx,
                            point.y + dy,
                        ) == q.element_spec(dx, dy)
                    &&& forall|a: int, b: int|
                        !(point.x <= a < point.x + ext && point.y <= b < point.y + ext)
                            ==> final(self).disp().pix(a, b) == old(self).disp().pix(a, b)
                })
            }),
    {
        if self.finalized {
            return Err(PTouchError::AlreadyFinalized);
        }
        let n = grid.size();
        let mut q = StyledQrCode::from(grid).with_scale(QR_SCALE).with_border(QR_BORDER);
        q.position = point;
        proof {
            assert(q == code_styling(grid, point));
            assert(q.wf());
        }
        let ext = n * (QR_SCALE as usize) + 2 * (QR_BORDER as usize);
        proof {
            assert(ext == q.extent_spec());
        }
        if point.x < 0 || point.y < 0 {
            return Err(PTouchError::RenderError);
        }
        let px = point.x as usize;
        let py = point.y as usize;
        if py > self.cfg.y || ext > self.cfg.y - py {
            return Err(PTouchError::RenderError);
        }
        let ghost pre = self.display@;
        let mut dx: usize = 0;
        while dx < ext
            invariant
                dx <= ext,
                q == code_styling(grid, point),
                q.wf(),
                ext == q.extent_spec(),
                px == point.x as int,
                py == point.y as int,
                pre == old(self).display@,
                pre.wf(),
                py + ext <= pre.height,
                self.cfg == old(self).cfg,
                !self.finalized,
                self.display@.wf(),
                self.display@.height == pre.height,
                dx == 0 ==> self.display@.width() == pre.width(),
                dx > 0 ==> self.display@.width() == if px + dx > pre.width() {
                    (px + dx) as int
                } else {
                    pre.width() as int
                },
                forall|a: int, b: int|
                    px <= a < px + dx && py <= b < py + ext ==> self.display@.pix(a, b)
                        == q.element_spec(a - px, b - py),
                forall|a: int, b: int|
                    !(px <= a < px + dx && py <= b < py + ext) ==> self.display@.pix(a, b)
                        == pre.pix(a, b),
            decreases ext - dx,
        {
            let ghost w0 = self.display@.width();
            let mut dy: usize = 0;
            while dy < ext
                invariant
                    dy <= ext,
                    dx < ext,
                    q == code_styling(grid, point),
                    q.wf(),
                    ext == q.extent_spec(),
                    px == point.x as int,
                    py == point.y as int,
                    pre == old(self).display@,
                    pre.wf(),
                    py + ext <= pre.height,
                    self.cfg == old(self).cfg,
                    !self.finalized,
                    self.display@.wf(),
                    self.display@.height == pre.height,
                    dx == 0 ==> w0 == pre.width(),
                    dx > 0 ==> w0 == if px + dx > pre.width() {
                        (px + dx) as int
                    } else {
                        pre.width() as int
                    },
                    dy == 0 ==> self.display@.width() == w0,
                    dy > 0 ==> self.display@.width() == if px + dx + 1 > w0 {
                        (px + dx + 1) as int
                    } else {
                        w0 as int
                    },
                    forall|a: int, b: int|
                        px <= a < px + dx && py <= b < py + ext ==> self.display@.pix(a, b)
                            == q.element_spec(a - px, b - py),
                    forall|b: int|
                        py <= b < py + dy ==> #[trigger] self.display@.pix(px + dx, b)
                            == q.element_spec(dx as int, b - py),
                    forall|a: int, b: int|
                        !(px <= a < px + dx && py <= b < py + ext) && !(a == px + dx && py <= b < py
                            + dy) ==> self.display@.pix(a, b) == pre.pix(a, b),
                decreases ext - dy,
            {
                let v = q.get_element(Point { x: dx as i32, y: dy as i32 });
                let ghost dpre = self.display@;
                match self.display.set(px + dx, py + dy, v) {
                    Ok(()) => {},
                    Err(_) => {
                        proof {
                            assert(false);
                        }
                    },
                }
                proof {
                    crate::display::lemma_after_set_pix(
                        dpre,
                        px + dx as int,
                        py + dy as int,
                        v,
                    );
                }
                dy += 1;
            }
            dx += 1;
        }
        Ok(())
    }

    /// Finalize: apply the orientation transform and emit the packed
    /// device payload.  Placement is no longer permitted afterwards, and
    /// a second finalize is rejected.
    pub fn finish(&mut self) -> (r: Result<Vec<Vec<u8>>, PTouchError>)
        requires
            old(self).wf(),
            old(self).disp().width() + 7 <= usize::MAX,
        ensures
            final(self).wf(),
            final(self).config() == old(self).config(),
            final(self).disp() == old(self).disp(),
            final(self).is_finalized(),
            old(self).is_finalized() ==> r == Err::<Vec<Vec<u8>>, PTouchError>(
                PTouchError::AlreadyFinalized,
            ),
            !old(self).is_finalized() ==> {
                &&& r is Ok
                &&& (old(self).config().orientation == Orientation::Vertical ==> packed_bytes_of(
                    byte_matrix_view((r->Ok_0)@),
                    old(self).disp(),
                ))
                &&& (old(self).config().orientation == Orientation::Horizontal ==> packed_rotated_of(
                    byte_matrix_view((r->Ok_0)@),
                    old(self).disp(),
                ))
            },
    {
        if self.finalized {
            return Err(PTouchError::AlreadyFinalized);
        }
        self.finalized = true;
        match self.cfg.orientation {
            Orientation::Vertical => self.display.render(),
            Orientation::Horizontal => {
                let t = transposed(&self.display);
                let r = t.render();
                proof {
                    if r is Ok {
                        let out = byte_matrix_view((r->Ok_0)@);
                        let v = self.display@;
                        assert forall|x: int, y: int|
                            0 <= x < v.height && 0 <= y < 8 * bytes_per_col(v.width()) implies
                            get_bit(#[trigger] out[x][y / 8], (7 - y % 8) as u8) == (0 <= y
                            < v.width() && v.pix(v.width() - 1 - y, x)) by {
                            assert(get_bit(out[x][y / 8], (7 - y % 8) as u8) == t@.pix(x, y));
                        }
                    }
                }
                r
            },
        }
    }
}

} // verus!
