//! In-memory bit-packed pixel store for composing label images.
//!
//! The short axis (`y`) is fixed by the print head and hard-bounded; the
//! long axis (`x`) grows on demand, one packed byte column per pixel
//! column.  Internally a pixel `(x, y)` lives in bit `y % 8`
//! (least-significant-bit first) of byte `y / 8` of column `x`; the
//! device-transfer layout produced by [`Display::render`] is
//! most-significant-bit first, and [`Display::render`] is the single
//! conversion boundary between the two bit orders.

use vstd::prelude::*;

use crate::geometry::{Pixel, Point, Rect};
use crate::PTouchError;

verus! {

/// True iff bit `i` of `byte` is set (bit 0 is the least significant).
pub open spec fn get_bit(byte: u8, i: u8) -> bool {
    (byte >> i) & 1 == 1
}

/// `byte` with bit `i` forced to `v`.
pub open spec fn set_bit(byte: u8, i: u8, v: bool) -> u8 {
    if v {
        byte | (1u8 << i)
    } else {
        byte & !(1u8 << i)
    }
}

/// Packed bytes per column for a buffer of the given pixel height.
pub open spec fn bytes_per_col(height: nat) -> nat {
    (height + 7) / 8
}

proof fn lemma_get_bit_zero(i: u8)
    ensures
        !get_bit(0u8, i),
{
    assert((0u8 >> i) & 1 != 1) by (bit_vector);
}

proof fn lemma_set_bit(c: u8, i: u8, v: bool)
    requires
        i < 8,
    ensures
        get_bit(set_bit(c, i, v), i) == v,
        forall|j: u8| j < 8 && j != i ==> get_bit(set_bit(c, i, v), j) == get_bit(c, j),
{
    assert(get_bit(set_bit(c, i, v), i) == v) by (bit_vector)
        requires
            i < 8,
    ;
    assert(forall|j: u8| j < 8 && j != i ==> #[trigger] get_bit(set_bit(c, i, v), j) == get_bit(
        c,
        j,
    )) by (bit_vector)
        requires
            i < 8,
    ;
}

/// The mathematical model of a [`Display`]: the requested pixel height and
/// the packed byte columns.
#[verifier::ext_equal]
pub struct DisplayView {
    pub height: nat,
    pub cols: Seq<Seq<u8>>,
}

impl DisplayView {
    /// Every column holds exactly the packed bytes for `height` pixels.
    pub open spec fn wf(self) -> bool {
        forall|i: int|
            0 <= i < self.cols.len() ==> (#[trigger] self.cols[i]).len() == bytes_per_col(
                self.height,
            )
    }

    /// The current column count: the logical image width.
    pub open spec fn width(self) -> nat {
        self.cols.len()
    }

    /// The pixel at `(x, y)`.  Coordinates outside the stored extent read
    /// off, so growth by zero-filled columns leaves every pixel unchanged.
    pub open spec fn pix(self, x: int, y: int) -> bool {
        &&& 0 <= x < self.cols.len()
        &&& 0 <= y < self.height
        &&& get_bit(self.cols[x][y / 8], (y % 8) as u8)
    }

    /// A packed column whose pixels all read off.
    pub open spec fn zero_col(self) -> Seq<u8> {
        Seq::new(bytes_per_col(self.height), |j: int| 0u8)
    }

    /// The view with zero-filled columns appended so that column `x` exists.
    pub open spec fn grown(self, x: int) -> DisplayView {
        if x < self.cols.len() {
            self
        } else {
            DisplayView {
                height: self.height,
                cols: self.cols + Seq::new((x + 1 - self.cols.len()) as nat, |i: int| self.zero_col()),
            }
        }
    }

    /// The view after one in-range write of `v` at `(x, y)`: the buffer is
    /// grown so that column `x` exists, then bit `y % 8` of byte `y / 8` of
    /// that column is forced to `v`.
    pub open spec fn after_set(self, x: int, y: int, v: bool) -> DisplayView {
        let g = self.grown(x);
        DisplayView {
            height: g.height,
            cols: g.cols.update(
                x,
                g.cols[x].update(y / 8, set_bit(g.cols[x][y / 8], (y % 8) as u8, v)),
            ),
        }
    }
}

/// A write of `v` at `(x, y)` leaves exactly that pixel holding `v`:
/// reading the coordinate back yields the value written.
pub proof fn lemma_set_then_get(v: DisplayView, x: int, y: int, val: bool)
    requires
        v.wf(),
        0 <= x,
        0 <= y < v.height,
    ensures
        v.after_set(x, y, val).wf(),
        v.after_set(x, y, val).pix(x, y) == val,
{
    lemma_after_set_pix(v, x, y, val);
}

/// A write beyond the current column count grows the buffer to just past
/// the written column, and every pixel of the fresh columns other than the
/// written one still reads off.
pub proof fn lemma_growth_fresh_columns_off(v: DisplayView, x: int, y: int, val: bool)
    requires
        v.wf(),
        v.width() <= x,
        0 <= y < v.height,
    ensures
        v.after_set(x, y, val).width() == x + 1,
        forall|a: int, b: int|
            v.width() <= a && !(a == x && b == y) ==> !v.after_set(x, y, val).pix(a, b),
{
    lemma_after_set_pix(v, x, y, val);
    assert forall|a: int, b: int|
        v.width() <= a && !(a == x && b == y) implies !v.after_set(x, y, val).pix(a, b) by {
        assert(v.after_set(x, y, val).pix(a, b) == v.pix(a, b));
        assert(!v.pix(a, b));
    }
}

/// The pointwise effect of [`DisplayView::after_set`]: the written pixel
/// holds the value written, every other coordinate is unchanged, the width
/// grows to cover the written column, and the height is fixed.
pub proof fn lemma_after_set_pix(v: DisplayView, x: int, y: int, val: bool)
    requires
        v.wf(),
        0 <= x,
        0 <= y < v.height,
    ensures
        v.after_set(x, y, val).wf(),
        v.after_set(x, y, val).height == v.height,
        v.after_set(x, y, val).width() == if x + 1 > v.width() {
            x + 1
        } else {
            v.width() as int
        },
        v.after_set(x, y, val).pix(x, y) == val,
        forall|a: int, b: int| !(a == x && b == y) ==> v.after_set(x, y, val).pix(a, b) == v.pix(
            a,
            b,
        ),
{
    let g = v.grown(x);
    let r = v.after_set(x, y, val);
    assert forall|a: int, b: int| 0 <= a < g.cols.len() implies g.pix(a, b) == v.pix(a, b) by {
        if a >= v.cols.len() {
            if 0 <= b < g.height {
                lemma_get_bit_zero((b % 8) as u8);
            }
        }
    }
    assert(0 <= y / 8 < bytes_per_col(v.height));
    lemma_set_bit(g.cols[x][y / 8], (y % 8) as u8, val);
    assert(r.pix(x, y) == val);
    assert forall|a: int, b: int| !(a == x && b == y) implies r.pix(a, b) == v.pix(a, b) by {
        if a == x && 0 <= b < v.height && b / 8 == y / 8 {
            assert(b != y);
            assert(b % 8 != y % 8);
        }
        if 0 <= a < g.cols.len() {
            if a >= v.cols.len() && 0 <= b < g.height {
                lemma_get_bit_zero((b % 8) as u8);
            }
        }
    }
}

/// Whether one pixel write of a batch, shifted by the anchor `(dx, dy)`,
/// is in range for a buffer of the given height.  The long axis has no
/// upper bound: a write only fails rightward of the origin when the short
/// axis is exceeded.
pub open spec fn pixel_ok(height: nat, p: Pixel, dx: int, dy: int) -> bool {
    &&& 0 <= p.point.x + dx
    &&& 0 <= p.point.y + dy < height
}

/// Index of the first out-of-range write in a batch (the batch length if
/// every write is in range).
pub open spec fn first_bad(height: nat, s: Seq<Pixel>, dx: int, dy: int) -> int
    decreases s.len(),
{
    if s.len() == 0 {
        0
    } else if !pixel_ok(height, s[0], dx, dy) {
        0
    } else {
        1 + first_bad(height, s.drop_first(), dx, dy)
    }
}

/// [`first_bad`] points at the first out-of-range write: every earlier
/// write is in range, and the write there (if any) is not.
pub proof fn lemma_first_bad(height: nat, s: Seq<Pixel>, dx: int, dy: int)
    ensures
        0 <= first_bad(height, s, dx, dy) <= s.len(),
        forall|j: int|
            0 <= j < first_bad(height, s, dx, dy) ==> pixel_ok(height, #[trigger] s[j], dx, dy),
        first_bad(height, s, dx, dy) < s.len() ==> !pixel_ok(
            height,
            s[first_bad(height, s, dx, dy)],
            dx,
            dy,
        ),
    decreases s.len(),
{
    if s.len() > 0 && pixel_ok(height, s[0], dx, dy) {
        lemma_first_bad(height, s.drop_first(), dx, dy);
        assert(forall|j: int| 1 <= j < s.len() ==> #[trigger] s[j] == s.drop_first()[j - 1]);
    }
}

/// The view after the first `n` writes of a batch, each shifted by the
/// anchor `(dx, dy)`.
pub open spec fn apply_prefix(v: DisplayView, s: Seq<Pixel>, dx: int, dy: int, n: int) -> DisplayView
    decreases n,
{
    if n <= 0 {
        v
    } else {
        let w = apply_prefix(v, s, dx, dy, n - 1);
        let p = s[n - 1];
        w.after_set(p.point.x + dx, p.point.y + dy, p.on)
    }
}

/// The packed byte columns of a matrix of byte rows.
pub open spec fn byte_matrix_view(d: Seq<Vec<u8>>) -> Seq<Seq<u8>> {
    Seq::new(d.len(), |i: int| d[i]@)
}

/// The device-transfer layout produced by [`Display::render`]: one byte
/// column per pixel column, where bit `7 - (y % 8)` of byte `y / 8` of
/// column `x` (most-significant-bit first) holds pixel `(x, y)`, and every
/// bit past the pixel height is clear.
pub open spec fn packed_bytes_of(out: Seq<Seq<u8>>, v: DisplayView) -> bool {
    &&& out.len() == v.width()
    &&& forall|x: int| 0 <= x < out.len() ==> (#[trigger] out[x]).len() == bytes_per_col(v.height)
    &&& forall|x: int, y: int|
        0 <= x < v.width() && 0 <= y < 8 * bytes_per_col(v.height) ==> get_bit(
            #[trigger] out[x][y / 8],
            (7 - y % 8) as u8,
        ) == v.pix(x, y)
}

/// In-memory display for drawing / rendering label data.
pub struct Display {
    y: usize,
    y_max: usize,
    data: Vec<Vec<u8>>,
}

impl View for Display {
    type V = DisplayView;

    closed spec fn view(&self) -> DisplayView {
        DisplayView {
            height: self.y as nat,
            cols: Seq::new(self.data@.len(), |i: int| self.data@[i]@),
        }
    }
}

impl Display {
    #[verifier::type_invariant]
    spec fn inv(self) -> bool {
        &&& self.y_max == bytes_per_col(self.y as nat) * 8
        &&& self.y + 7 <= usize::MAX
        &&& forall|i: int|
            0 <= i < self.data@.len() ==> (#[trigger] self.data@[i])@.len() == self.y_max / 8
    }

    /// Create a new display with the provided height and minimum width.
    pub fn new(y: usize, min_x: usize) -> (r: Display)
        requires
            y + 7 <= usize::MAX,
        ensures
            r@.wf(),
            r@.height == y,
            r@.width() == min_x,
            forall|a: int, b: int| !r@.pix(a, b),
    {
        let y_max = ((y + 7) / 8) * 8;
        let bpc = y_max / 8;
        let mut data: Vec<Vec<u8>> = Vec::new();
        while data.len() < min_x
            invariant
                data@.len() <= min_x,
                forall|i: int|
                    0 <= i < data@.len() ==> (#[trigger] data@[i])@ == Seq::new(
                        bpc as nat,
                        |j: int| 0u8,
                    ),
            decreases min_x - data.len(),
        {
            data.push(zero_col(bpc));
        }
        let r = Display { y, y_max, data };
        proof {
            assert forall|a: int, b: int| !r@.pix(a, b) by {
                if 0 <= a < r@.cols.len() && 0 <= b < r@.height {
                    lemma_get_bit_zero((b % 8) as u8);
                }
            }
        }
        r
    }

    /// Set a pixel value by X/Y location.
    ///
    /// A `y` at or beyond the configured height is a hard bounds error; an
    /// `x` beyond the current column count transparently grows the buffer
    /// with zero-filled columns up to and including `x`.
    pub fn set(&mut self, x: usize, y: usize, v: bool) -> (r: Result<(), PTouchError>)
        requires
            x < usize::MAX,
        ensures
            final(self)@.wf(),
            final(self)@.height == old(self)@.height,
            y < old(self)@.height ==> {
                &&& r == Ok::<(), PTouchError>(())
                &&& final(self)@ == old(self)@.after_set(x as int, y as int, v)
                &&& final(self)@.width() == if x + 1 > old(self)@.width() {
                    x + 1
                } else {
                    old(self)@.width() as int
                }
                &&& final(self)@.pix(x as int, y as int) == v
                &&& forall|a: int, b: int|
                    !(a == x && b == y) ==> final(self)@.pix(a, b) == old(self)@.pix(a, b)
            },
            y >= old(self)@.height ==> r == Err::<(), PTouchError>(PTouchError::RenderError)
                && final(self)@ == old(self)@,
    {
        proof {
            use_type_invariant(&*self);
        }
        if y >= self.y {
            return Err(PTouchError::RenderError);
        }
        let ghost pre = self@;
        let bpc = self.y_max / 8;
        let mut data: Vec<Vec<u8>> = Vec::new();
        core::mem::swap(&mut data, &mut self.data);
        while x >= data.len()
            invariant
                x < usize::MAX,
                bpc == bytes_per_col(pre.height),
                pre.width() <= data@.len(),
                pre.width() > x ==> data@.len() == pre.width(),
                data@.len() <= x + 1 || data@.len() == pre.width(),
                forall|i: int| 0 <= i < pre.width() ==> (#[trigger] data@[i])@ == pre.cols[i],
                forall|i: int|
                    pre.width() <= i < data@.len() ==> (#[trigger] data@[i])@ == pre.zero_col(),
            decreases x + 1 - data.len(),
        {
            let col = zero_col(bpc);
            proof {
                assert(col@ =~= pre.zero_col());
            }
            data.push(col);
        }
        proof {
            let g = pre.grown(x as int);
            assert(g.cols.len() == data@.len());
            assert forall|i: int| 0 <= i < data@.len() implies (#[trigger] data@[i])@ == g.cols[i] by {
                if i >= pre.width() {
                    assert(g.cols[i] == pre.zero_col());
                }
            }
            assert(Seq::new(data@.len(), |i: int| data@[i]@) =~= g.cols);
        }
        let idx = y / 8;
        let i = (y % 8) as u8;
        let c = &mut data[x];
        let nb = byte_with_bit(c[idx], i, v);
        c[idx] = nb;
        core::mem::swap(&mut data, &mut self.data);
        proof {
            let g = pre.grown(x as int);
            assert(self@.cols =~= g.cols.update(
                x as int,
                g.cols[x as int].update(
                    y as int / 8,
                    set_bit(g.cols[x as int][y as int / 8], (y as int % 8) as u8, v),
                ),
            ));
            assert(self@ =~= pre.after_set(x as int, y as int, v));
            lemma_after_set_pix(pre, x as int, y as int, v);
        }
        Ok(())
    }

    /// Fetch a pixel value by X/Y location.
    ///
    /// Both axes are checked: a read never grows the buffer.
    pub fn get(&self, x: usize, y: usize) -> (r: Result<bool, PTouchError>)
        ensures
            x < self@.width() && y < self@.height ==> r == Ok::<bool, PTouchError>(
                self@.pix(x as int, y as int),
            ),
            !(x < self@.width() && y < self@.height) ==> r == Err::<bool, PTouchError>(
                PTouchError::RenderError,
            ),
    {
        proof {
            use_type_invariant(self);
        }
        if y >= self.y || x >= self.data.len() {
            return Err(PTouchError::RenderError);
        }
        let c = self.data[x][y / 8];
        let i = (y % 8) as u8;
        let on = c & (1u8 << i) != 0;
        proof {
            assert((c & (1u8 << i) != 0) == get_bit(c, i)) by (bit_vector)
                requires
                    i < 8,
            ;
        }
        Ok(on)
    }

    /// The current logical extent: `(columns, height)`.
    pub fn size(&self) -> (r: (usize, usize))
        ensures
            r.0 == self@.width(),
            r.1 == self@.height,
    {
        (self.data.len(), self.y)
    }

    /// Fetch a pixel as a coordinate/state pair.
    pub fn get_pixel(&self, x: usize, y: usize) -> (r: Result<Pixel, PTouchError>)
        requires
            x <= i32::MAX,
            y <= i32::MAX,
        ensures
            x < self@.width() && y < self@.height ==> r == Ok::<Pixel, PTouchError>(
                Pixel {
                    point: Point { x: x as i32, y: y as i32 },
                    on: self@.pix(x as int, y as int),
                },
            ),
            !(x < self@.width() && y < self@.height) ==> r == Err::<Pixel, PTouchError>(
                PTouchError::RenderError,
            ),
    {
        match self.get(x, y) {
            Ok(v) => Ok(Pixel { point: Point { x: x as i32, y: y as i32 }, on: v }),
            Err(e) => Err(e),
        }
    }

    /// The drawn region: the origin together with the current extent.
    pub fn bounding_box(&self) -> (r: Rect)
        requires
            self@.width() <= u32::MAX,
            self@.height <= u32::MAX,
        ensures
            r.top_left == (Point { x: 0, y: 0 }),
            r.width == self@.width(),
            r.height == self@.height,
    {
        Rect {
            top_left: Point { x: 0, y: 0 },
            width: self.data.len() as u32,
            height: self.y as u32,
        }
    }

    /// Re-derive every pixel and pack it in device wire order:
    /// a byte matrix addressed `[x][y / 8]` with bit `7 - (y % 8)` set
    /// according to pixel state, of dimensions
    /// `(width, (height + 7) / 8)`.
    pub fn render(&self) -> (r: Result<Vec<Vec<u8>>, PTouchError>)
        ensures
            r is Ok,
            packed_bytes_of(byte_matrix_view((r->Ok_0)@), self@),
    {
        proof {
            use_type_invariant(self);
        }
        let (w, hh) = self.size();
        let bpc = self.y_max / 8;
        let mut buff: Vec<Vec<u8>> = Vec::new();
        while buff.len() < w
            invariant
                buff@.len() <= w,
                w == self@.width(),
                hh == self@.height,
                bpc == bytes_per_col(self@.height),
                forall|x: int| 0 <= x < buff@.len() ==> (#[trigger] buff@[x])@.len() == bpc,
                forall|x: int, y: int|
                    0 <= x < buff@.len() && 0 <= y < 8 * bpc ==> get_bit(
                        #[trigger] buff@[x]@[y / 8],
                        (7 - y % 8) as u8,
                    ) == self@.pix(x, y),
            decreases w - buff.len(),
        {
            let x = buff.len();
            let mut col = zero_col(bpc);
            proof {
                assert forall|b: int| 0 <= b < 8 * bpc implies !get_bit(
                    #[trigger] col@[b / 8],
                    (7 - b % 8) as u8,
                ) by {
                    lemma_get_bit_zero((7 - b % 8) as u8);
                }
            }
            let mut yy: usize = 0;
            while yy < hh
                invariant
                    x < w,
                    w == self@.width(),
                    hh == self@.height,
                    bpc == bytes_per_col(self@.height),
                    yy <= hh,
                    col@.len() == bpc,
                    forall|b: int|
                        0 <= b < yy ==> get_bit(#[trigger] col@[b / 8], (7 - b % 8) as u8)
                            == self@.pix(x as int, b),
                    forall|b: int|
                        yy <= b < 8 * bpc ==> !get_bit(#[trigger] col@[b / 8], (7 - b % 8) as u8),
                decreases hh - yy,
            {
                let p = match self.get(x, yy) {
                    Ok(b) => b,
                    Err(e) => {
                        return Err(e);
                    },
                };
                let ghost colpre = col@;
                if p {
                    let idx = yy / 8;
                    let bi = (7 - (yy % 8)) as u8;
                    let nb = byte_with_bit(col[idx], bi, true);
                    col[idx] = nb;
                    proof {
                        lemma_set_bit(colpre[idx as int], bi, true);
                    }
                }
                proof {
                    assert forall|b: int| 0 <= b < yy + 1 implies get_bit(
                        #[trigger] col@[b / 8],
                        (7 - b % 8) as u8,
                    ) == self@.pix(x as int, b) by {
                        if b < yy {
                            if p && b / 8 == yy as int / 8 {
                                assert(b % 8 != yy as int % 8);
                            }
                        } else {
                            assert(b == yy);
                        }
                    }
                    assert forall|b: int| yy + 1 <= b < 8 * bpc implies !get_bit(
                        #[trigger] col@[b / 8],
                        (7 - b % 8) as u8,
                    ) by {
                        if p && b / 8 == yy as int / 8 {
                            assert(b % 8 != yy as int % 8);
                        }
                    }
                }
                yy += 1;
            }
            proof {
                assert forall|b: int| 0 <= b < 8 * bpc implies get_bit(
                    #[trigger] col@[b / 8],
                    (7 - b % 8) as u8,
                ) == self@.pix(x as int, b) by {
                    if b >= hh {
                        assert(!self@.pix(x as int, b));
                    }
                }
            }
            buff.push(col);
        }
        proof {
            assert(byte_matrix_view(buff@) =~= Seq::new(buff@.len(), |i: int| buff@[i]@));
        }
        Ok(buff)
    }

    /// Apply a batch of pixel writes, each shifted by the anchor `offset`,
    /// in order via [`Display::set`].  A single out-of-range write aborts
    /// the whole batch with the writes so far retained: a failed batch is
    /// not rolled back.
    pub fn draw_pixels_at(&mut self, pixels: &Vec<Pixel>, offset: Point) -> (r: Result<
        (),
        PTouchError,
    >)
        ensures
            final(self)@.wf(),
            final(self)@.height == old(self)@.height,
            final(self)@ == apply_prefix(
                old(self)@,
                pixels@,
                offset.x as int,
                offset.y as int,
                first_bad(old(self)@.height, pixels@, offset.x as int, offset.y as int),
            ),
            r is Ok <==> first_bad(old(self)@.height, pixels@, offset.x as int, offset.y as int)
                == pixels@.len(),
            r is Err ==> r == Err::<(), PTouchError>(PTouchError::RenderError),
    {
        proof {
            use_type_invariant(&*self);
        }
        let ghost pre = self@;
        let ghost dx = offset.x as int;
        let ghost dy = offset.y as int;
        let ghost bad = first_bad(pre.height, pixels@, dx, dy);
        proof {
            lemma_first_bad(pre.height, pixels@, dx, dy);
        }
        let mut k: usize = 0;
        while k < pixels.len()
            invariant
                k <= pixels@.len(),
                dx == offset.x as int,
                dy == offset.y as int,
                pre == old(self)@,
                pre.wf(),
                self@.wf(),
                bad == first_bad(pre.height, pixels@, dx, dy),
                k <= bad <= pixels@.len(),
                forall|j: int| 0 <= j < bad ==> pixel_ok(pre.height, #[trigger] pixels@[j], dx, dy),
                bad < pixels@.len() ==> !pixel_ok(pre.height, pixels@[bad], dx, dy),
                self@.height == pre.height,
                self@ == apply_prefix(pre, pixels@, dx, dy, k as int),
            decreases pixels@.len() - k,
        {
            let p = pixels[k];
            let sx_w = p.point.x as i64 + offset.x as i64;
            let sy_w = p.point.y as i64 + offset.y as i64;
            if sx_w < 0 || sy_w < 0 {
                proof {
                    assert(!pixel_ok(pre.height, pixels@[k as int], dx, dy));
                    assert(bad == k);
                }
                return Err(PTouchError::RenderError);
            }
            let sx = sx_w as usize;
            let sy = sy_w as usize;
            let r = self.set(sx, sy, p.on);
            match r {
                Ok(()) => {},
                Err(e) => {
                    proof {
                        assert(sy >= pre.height);
                        assert(!pixel_ok(pre.height, pixels@[k as int], dx, dy));
                        assert(bad == k);
                    }
                    return Err(e);
                },
            }
            proof {
                assert(pixel_ok(pre.height, pixels@[k as int], dx, dy));
                assert(bad > k);
                assert(self@ == apply_prefix(pre, pixels@, dx, dy, k + 1));
            }
            k += 1;
        }
        proof {
            assert(bad == pixels@.len());
        }
        Ok(())
    }

    /// Accept a sequence of colored pixels at their own coordinates: the
    /// drawable-capability batch operation.
    pub fn draw_iter(&mut self, pixels: &Vec<Pixel>) -> (r: Result<(), PTouchError>)
        ensures
            final(self)@.wf(),
            final(self)@.height == old(self)@.height,
            final(self)@ == apply_prefix(
                old(self)@,
                pixels@,
                0,
                0,
                first_bad(old(self)@.height, pixels@, 0, 0),
            ),
            r is Ok <==> first_bad(old(self)@.height, pixels@, 0, 0) == pixels@.len(),
            r is Err ==> r == Err::<(), PTouchError>(PTouchError::RenderError),
    {
        self.draw_pixels_at(pixels, Point { x: 0, y: 0 })
    }
}

/// The drawable capability: a sink that accepts colored pixels.  Both the
/// in-memory [`Display`] and any downstream preview or output sink
/// implement it, so drawing code can be written once against the
/// abstraction.
pub trait DrawPixel {
    /// Accept one colored pixel.
    fn draw_pixel(&mut self, pixel: Pixel) -> Result<(), PTouchError>;
}

impl DrawPixel for Display {
    fn draw_pixel(&mut self, pixel: Pixel) -> Result<(), PTouchError> {
        if pixel.point.x < 0 || pixel.point.y < 0 {
            return Err(PTouchError::RenderError);
        }
        self.set(pixel.point.x as usize, pixel.point.y as usize, pixel.on)
    }
}

fn zero_col(n: usize) -> (r: Vec<u8>)
    ensures
        r@ == Seq::new(n as nat, |j: int| 0u8),
{
    let mut v: Vec<u8> = Vec::new();
    while v.len() < n
        invariant
            v@.len() <= n,
            forall|j: int| 0 <= j < v@.len() ==> v@[j] == 0u8,
        decreases n - v.len(),
    {
        v.push(0u8);
    }
    proof {
        assert(v@ =~= Seq::new(n as nat, |j: int| 0u8));
    }
    v
}

fn byte_with_bit(c: u8, i: u8, v: bool) -> (r: u8)
    requires
        i < 8,
    ensures
        r == set_bit(c, i, v),
{
    if v {
        c | (1u8 << i)
    } else {
        c & !(1u8 << i)
    }
}

} // verus!
