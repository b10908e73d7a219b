//! The CPU-side image of the display. Decoders write device pixels into
//! this buffer; blitting the buffer to the framebuffer device happens
//! outside this crate.

use vstd::prelude::*;
use crate::pixel::DevicePixel;

verus! {

/// The byte offset of pixel `(x, y)` in an image whose rows are `stride`
/// bytes apart.
pub open spec fn pixel_offset(stride: int, x: int, y: int) -> int {
    y * stride + 2 * x
}

/// The 16-bit little-endian value starting at byte offset `off`.
pub open spec fn pixel_value_at(img: Seq<u8>, off: int) -> int {
    img[off] + 0x100 * img[off + 1]
}

/// The value of pixel `(x, y)` of the image.
pub open spec fn pixel_at(img: Seq<u8>, stride: int, x: int, y: int) -> int {
    pixel_value_at(img, pixel_offset(stride, x, y))
}

/// The low byte of a device pixel, stored first.
pub open spec fn px_lo(v: u16) -> u8 {
    (v & 0xff) as u8
}

/// The high byte of a device pixel, stored second.
pub open spec fn px_hi(v: u16) -> u8 {
    (v >> 8) as u8
}

/// The two little-endian bytes of a pixel carry exactly its value.
pub proof fn lemma_px_bytes(v: u16)
    by (bit_vector)
    ensures
        px_lo(v) + 0x100 * px_hi(v) == v,
{
}

/// Whether byte `i` belongs to some pixel of the rectangle
/// `[x0, x0+w) x [y0, y0+h)` clipped to the visible `xres x yres` area.
pub open spec fn covered(
    stride: int,
    xres: int,
    yres: int,
    x0: int,
    y0: int,
    w: int,
    h: int,
    i: int,
) -> bool {
    exists|x: int, y: int|
        x0 <= x < x0 + w && y0 <= y < y0 + h && 0 <= x < xres && 0 <= y < yres && (i
            == #[trigger] pixel_offset(stride, x, y) || i == pixel_offset(stride, x, y) + 1)
}

/// Every byte of an in-bounds pixel lies inside the image.
pub proof fn lemma_pixel_offset_in_bounds(stride: int, xres: int, yres: int, x: int, y: int)
    requires
        0 <= x < xres,
        0 <= y < yres,
        2 * xres <= stride,
    ensures
        0 <= pixel_offset(stride, x, y),
        pixel_offset(stride, x, y) + 2 <= stride * yres,
{
    assert(0 <= y * stride + 2 * x && y * stride + 2 * x + 2 <= stride * yres) by (nonlinear_arith)
        requires
            0 <= x < xres,
            0 <= y < yres,
            2 * xres <= stride,
    ;
}

/// Distinct in-bounds pixels occupy disjoint byte pairs.
pub proof fn lemma_pixel_offsets_disjoint(
    stride: int,
    xres: int,
    x1: int,
    y1: int,
    x2: int,
    y2: int,
)
    requires
        0 <= x1 < xres,
        0 <= x2 < xres,
        0 <= y1,
        0 <= y2,
        2 * xres <= stride,
        x1 != x2 || y1 != y2,
    ensures
        pixel_offset(stride, x1, y1) + 2 <= pixel_offset(stride, x2, y2) || pixel_offset(
            stride,
            x2,
            y2,
        ) + 2 <= pixel_offset(stride, x1, y1),
{
    assert(y1 * stride + 2 * x1 + 2 <= y2 * stride + 2 * x2 || y2 * stride + 2 * x2 + 2 <= y1
        * stride + 2 * x1) by (nonlinear_arith)
        requires
            0 <= x1 < xres,
            0 <= x2 < xres,
            0 <= y1,
            0 <= y2,
            2 * xres <= stride,
            x1 != x2 || y1 != y2,
    ;
}

/// The CPU-side image buffer together with the display geometry: `xres` by
/// `yres` visible pixels, rows `line_length` bytes apart (the device's
/// stride, which may exceed `2 * xres`), two bytes per pixel, little-endian.
pub struct Screen {
    pub image: Vec<u8>,
    pub xres: usize,
    pub yres: usize,
    pub line_length: usize,
}

impl Screen {
    /// Well-formed: a visible row fits inside one stride-length line, the
    /// image holds exactly `yres` lines, and the total size is small enough
    /// that all offset arithmetic stays inside `usize`.
    pub open spec fn wf(self) -> bool {
        &&& self.xres <= 0xFFFF
        &&& self.yres <= 0xFFFF
        &&& 2 * self.xres <= self.line_length
        &&& self.image@.len() == self.line_length * self.yres
        &&& self.line_length * self.yres <= 0x4000_0000
    }

    /// The display geometry survives an operation unchanged.
    pub open spec fn same_geometry(self, other: Screen) -> bool {
        &&& self.xres == other.xres
        &&& self.yres == other.yres
        &&& self.line_length == other.line_length
    }

    /// A zero-filled image for a display of the given geometry.
    pub fn new(xres: usize, yres: usize, line_length: usize) -> (s: Screen)
        requires
            xres <= 0xFFFF,
            yres <= 0xFFFF,
            2 * xres <= line_length,
            line_length * yres <= 0x4000_0000,
        ensures
            s.wf(),
            s.xres == xres,
            s.yres == yres,
            s.line_length == line_length,
            s.image@ == Seq::new((line_length * yres) as nat, |i: int| 0u8),
    {
        let total = line_length * yres;
        let mut image: Vec<u8> = Vec::new();
        let mut i: usize = 0;
        while i < total
            invariant
                i <= total,
                image@ =~= Seq::new(i as nat, |j: int| 0u8),
            decreases total - i,
        {
            image.push(0u8);
            proof {
                assert(image@ =~= Seq::new((i + 1) as nat, |j: int| 0u8));
            }
            i = i + 1;
        }
        Screen { image, xres, yres, line_length }
    }

    /// The visible width in pixels.
    pub fn xres(&self) -> (r: usize)
        ensures
            r == self.xres,
    {
        self.xres
    }

    /// The visible height in pixels.
    pub fn yres(&self) -> (r: usize)
        ensures
            r == self.yres,
    {
        self.yres
    }

    /// Bytes per image row: the device's line length (stride).
    pub fn bytes_per_row(&self) -> (r: usize)
        ensures
            r == self.line_length,
    {
        self.line_length
    }

    /// Bytes per device pixel.
    pub fn bytes_per_pixel() -> (r: usize)
        ensures
            r == 2,
    {
        2
    }

    /// The image buffer, for blitting to the device.
    pub fn image_bytes(&self) -> (r: &Vec<u8>)
        ensures
            r@ == self.image@,
    {
        &self.image
    }

    /// Store a device pixel's two little-endian bytes at `offset`.
    pub fn set_at_offset(&mut self, offset: usize, value: DevicePixel)
        requires
            offset + 2 <= old(self).image@.len(),
        ensures
            final(self).image@ == old(self).image@.update(offset as int, px_lo(value@)).update(
                offset + 1,
                px_hi(value@),
            ),
            old(self).same_geometry(*final(self)),
    {
        let v = value.value();
        let n = self.image.len();
        assert(offset + 2 <= n);
        self.image[offset] = #[verifier::truncate] ((v & 0xff) as u8);
        self.image[offset + 1] = #[verifier::truncate] ((v >> 8) as u8);
    }

    /// Write pixel `(x, y)` if it is visible; writes beyond the visible
    /// area are discarded, so no input can move a write out of bounds.
    pub fn put_pixel(&mut self, x: usize, y: usize, value: DevicePixel)
        requires
            old(self).wf(),
        ensures
            final(self).wf(),
            old(self).same_geometry(*final(self)),
            x < old(self).xres && y < old(self).yres ==> final(self).image@ == old(
                self,
            ).image@.update(pixel_offset(old(self).line_length as int, x as int, y as int), px_lo(
                value@,
            )).update(pixel_offset(old(self).line_length as int, x as int, y as int) + 1, px_hi(
                value@,
            )),
            !(x < old(self).xres && y < old(self).yres) ==> final(self).image@ == old(
                self,
            ).image@,
    {
        if x < self.xres && y < self.yres {
            proof {
                lemma_pixel_offset_in_bounds(
                    self.line_length as int,
                    self.xres as int,
                    self.yres as int,
                    x as int,
                    y as int,
                );
            }
            let offset = y * self.line_length + 2 * x;
            self.set_at_offset(offset, value);
        }
    }
    /// Fill one row segment `[x0, x0+w)` at row `y` with one pixel value,
    /// clipped to the visible area.
    pub fn fill_row(&mut self, x0: usize, w: usize, y: usize, value: DevicePixel)
        requires
            old(self).wf(),
            x0 + w <= 0x10_0000,
        ensures
            final(self).wf(),
            old(self).same_geometry(*final(self)),
            final(self).image@.len() == old(self).image@.len(),
            forall|x: int|
                x0 <= x < x0 + w && 0 <= x < final(self).xres && (y as int) < final(self).yres
                    ==> pixel_at(
                    final(self).image@,
                    final(self).line_length as int,
                    x,
                    y as int,
                ) == value@,
            forall|i: int|
                0 <= i < final(self).image@.len() && !covered(
                    old(self).line_length as int,
                    old(self).xres as int,
                    old(self).yres as int,
                    x0 as int,
                    y as int,
                    w as int,
                    1,
                    i,
                ) ==> final(self).image@[i] == old(self).image@[i],
    {
        let ghost img0 = self.image@;
        let ghost stride = self.line_length as int;
        let ghost xres = self.xres as int;
        let ghost yres = self.yres as int;
        let mut dx: usize = 0;
        while dx < w
            invariant
                self.wf(),
                self.line_length as int == stride,
                self.xres as int == xres,
                self.yres as int == yres,
                dx <= w,
                x0 + w <= 0x10_0000,
                self.image@.len() == img0.len(),
                forall|x: int|
                    x0 <= x < x0 + dx && 0 <= x < xres && (y as int) < yres ==> pixel_at(
                        self.image@,
                        stride,
                        x,
                        y as int,
                    ) == value@,
                forall|i: int|
                    0 <= i < img0.len() && !covered(
                        stride,
                        xres,
                        yres,
                        x0 as int,
                        y as int,
                        dx as int,
                        1,
                        i,
                    ) ==> self.image@[i] == img0[i],
            decreases w - dx,
        {
            let ghost pre = self.image@;
            let x = x0 + dx;
            self.put_pixel(x, y, value);
            proof {
                if (x as int) < xres && (y as int) < yres {
                    let off = pixel_offset(stride, x as int, y as int);
                    lemma_px_bytes(value@);
                    lemma_pixel_offset_in_bounds(stride, xres, yres, x as int, y as int);
                    assert(self.image@[off] == px_lo(value@));
                    assert(pixel_at(self.image@, stride, x as int, y as int) == value@);
                    assert forall|px: int|
                        x0 <= px < x0 + dx && 0 <= px < xres && (y as int)
                            < yres implies pixel_at(self.image@, stride, px, y as int)
                        == value@ by {
                        let offp = pixel_offset(stride, px, y as int);
                        lemma_pixel_offsets_disjoint(stride, xres, px, y as int, x as int,
                            y as int);
                        lemma_pixel_offset_in_bounds(stride, xres, yres, px, y as int);
                        assert(self.image@[offp] == pre[offp]);
                        assert(self.image@[offp + 1] == pre[offp + 1]);
                        assert(pixel_at(pre, stride, px, y as int) == value@);
                    };
                    assert forall|i: int|
                        0 <= i < img0.len() && !covered(
                            stride,
                            xres,
                            yres,
                            x0 as int,
                            y as int,
                            (dx + 1) as int,
                            1,
                            i,
                        ) implies self.image@[i] == img0[i] by {
                        if i == off || i == off + 1 {
                            let xi = x as int;
                            let yi = y as int;
                            assert(x0 <= xi && xi < x0 + (dx + 1) && yi <= yi && yi < yi + 1 && 0
                                <= xi && xi < xres && 0 <= yi && yi < yres && (i == pixel_offset(
                                stride,
                                xi,
                                yi,
                            ) || i == pixel_offset(stride, xi, yi) + 1));
                            assert(covered(stride, xres, yres, x0 as int, y as int,
                                (dx + 1) as int, 1, i));
                        } else {
                            assert(self.image@[i] == pre[i]);
                            if covered(stride, xres, yres, x0 as int, y as int, dx as int, 1, i) {
                                lemma_covered_widen(stride, xres, yres, x0 as int, y as int,
                                    dx as int, 1, (dx + 1) as int, 1, i);
                            }
                        }
                    };
                } else {
                    assert forall|i: int|
                        0 <= i < img0.len() && !covered(
                            stride,
                            xres,
                            yres,
                            x0 as int,
                            y as int,
                            (dx + 1) as int,
                            1,
                            i,
                        ) implies self.image@[i] == img0[i] by {
                        if covered(stride, xres, yres, x0 as int, y as int, dx as int, 1, i) {
                            lemma_covered_widen(stride, xres, yres, x0 as int, y as int, dx as int,
                                1, (dx + 1) as int, 1, i);
                        }
                    };
                }
            }
            dx = dx + 1;
        }
    }

    /// Fill the rectangle `[x0, x0+w) x [y0, y0+h)` with one pixel value,
    /// clipped to the visible area; no byte outside the clipped rectangle
    /// is touched.
    pub fn fill_rect(&mut self, x0: usize, y0: usize, w: usize, h: usize, value: DevicePixel)
        requires
            old(self).wf(),
            x0 + w <= 0x10_0000,
            y0 + h <= 0x10_0000,
        ensures
            final(self).wf(),
            old(self).same_geometry(*final(self)),
            final(self).image@.len() == old(self).image@.len(),
            forall|x: int, y: int|
                x0 <= x < x0 + w && y0 <= y < y0 + h && 0 <= x < final(self).xres && 0 <= y
                    < final(self).yres ==> pixel_at(
                    final(self).image@,
                    final(self).line_length as int,
                    x,
                    y,
                ) == value@,
            forall|i: int|
                0 <= i < final(self).image@.len() && !covered(
                    old(self).line_length as int,
                    old(self).xres as int,
                    old(self).yres as int,
                    x0 as int,
                    y0 as int,
                    w as int,
                    h as int,
                    i,
                ) ==> final(self).image@[i] == old(self).image@[i],
    {
        let ghost img0 = self.image@;
        let ghost stride = self.line_length as int;
        let ghost xres = self.xres as int;
        let ghost yres = self.yres as int;
        let mut dy: usize = 0;
        while dy < h
            invariant
                self.wf(),
                self.line_length as int == stride,
                self.xres as int == xres,
                self.yres as int == yres,
                dy <= h,
                x0 + w <= 0x10_0000,
                y0 + h <= 0x10_0000,
                self.image@.len() == img0.len(),
                forall|x: int, y: int|
                    x0 <= x < x0 + w && y0 <= y < y0 + dy && 0 <= x < xres && 0 <= y < yres
                        ==> pixel_at(self.image@, stride, x, y) == value@,
                forall|i: int|
                    0 <= i < img0.len() && !covered(
                        stride,
                        xres,
                        yres,
                        x0 as int,
                        y0 as int,
                        w as int,
                        dy as int,
                        i,
                    ) ==> self.image@[i] == img0[i],
            decreases h - dy,
        {
            let ghost pre = self.image@;
            let y = y0 + dy;
            self.fill_row(x0, w, y, value);
            proof {
                assert forall|px: int, py: int|
                    x0 <= px < x0 + w && y0 <= py < y0 + dy && 0 <= px < xres && 0 <= py
                        < yres implies pixel_at(self.image@, stride, px, py) == value@ by {
                    let offp = pixel_offset(stride, px, py);
                    lemma_pixel_offset_in_bounds(stride, xres, yres, px, py);
                    if covered(stride, xres, yres, x0 as int, y as int, w as int, 1, offp) {
                        let (cx, cy): (int, int) = choose|cx: int, cy: int|
                            x0 <= cx < x0 + w && y as int <= cy < y as int + 1 && 0 <= cx < xres
                                && 0 <= cy < yres && (offp == #[trigger] pixel_offset(stride, cx,
                                cy) || offp == pixel_offset(stride, cx, cy) + 1);
                        lemma_pixel_offsets_disjoint(stride, xres, px, py, cx, cy);
                    }
                    if covered(stride, xres, yres, x0 as int, y as int, w as int, 1, offp + 1) {
                        let (cx, cy): (int, int) = choose|cx: int, cy: int|
                            x0 <= cx < x0 + w && y as int <= cy < y as int + 1 && 0 <= cx < xres
                                && 0 <= cy < yres && (offp + 1 == #[trigger] pixel_offset(stride,
                                cx, cy) || offp + 1 == pixel_offset(stride, cx, cy) + 1);
                        lemma_pixel_offsets_disjoint(stride, xres, px, py, cx, cy);
                    }
                    assert(self.image@[offp] == pre[offp]);
                    assert(self.image@[offp + 1] == pre[offp + 1]);
                    assert(pixel_at(pre, stride, px, py) == value@);
                };
                assert forall|i: int|
                    0 <= i < img0.len() && !covered(
                        stride,
                        xres,
                        yres,
                        x0 as int,
                        y0 as int,
                        w as int,
                        (dy + 1) as int,
                        i,
                    ) implies self.image@[i] == img0[i] by {
                    if covered(stride, xres, yres, x0 as int, y as int, w as int, 1, i) {
                        let (cx, cy): (int, int) = choose|cx: int, cy: int|
                            x0 <= cx < x0 + w && y as int <= cy < y as int + 1 && 0 <= cx < xres
                                && 0 <= cy < yres && (i == #[trigger] pixel_offset(stride, cx, cy)
                                || i == pixel_offset(stride, cx, cy) + 1);
                        assert(y0 <= cy < y0 + (dy + 1));
                        assert(covered(stride, xres, yres, x0 as int, y0 as int, w as int,
                            (dy + 1) as int, i));
                    }
                    assert(self.image@[i] == pre[i]);
                    if covered(stride, xres, yres, x0 as int, y0 as int, w as int, dy as int, i) {
                        lemma_covered_widen(stride, xres, yres, x0 as int, y0 as int, w as int,
                            dy as int, w as int, (dy + 1) as int, i);
                    }
                };
            }
            dy = dy + 1;
        }
    }
}

/// The device pixel of the `k`-th 8-bit RGB triplet of `rows`.
pub open spec fn rgb_pixel(rows: Seq<u8>, k: int) -> u16 {
    crate::pixel::rgb565(rows[3 * k], rows[3 * k + 1], rows[3 * k + 2])
}

impl Screen {
    /// Blacken the whole image, padding bytes included.
    pub fn clear(&mut self)
        requires
            old(self).wf(),
        ensures
            final(self).wf(),
            old(self).same_geometry(*final(self)),
            final(self).image@ == Seq::new(old(self).image@.len(), |i: int| 0u8),
    {
        let n = self.image.len();
        let mut i: usize = 0;
        while i < n
            invariant
                i <= n,
                self.image@.len() == n,
                self.xres == old(self).xres,
                self.yres == old(self).yres,
                self.line_length == old(self).line_length,
                forall|k: int| 0 <= k < i ==> self.image@[k] == 0,
            decreases n - i,
        {
            self.image[i] = 0;
            i = i + 1;
        }
        proof {
            assert(self.image@ =~= Seq::new(old(self).image@.len(), |i: int| 0u8));
        }
    }

    /// Write one row of `w` RGB triplets, numbers `k0` to `k0 + w` of
    /// `rows`, into screen row `y` starting at column `x0`.
    fn blit_rgb_row(&mut self, x0: usize, w: usize, y: usize, rows: &[u8], k0: usize)
        requires
            old(self).wf(),
            x0 + w <= old(self).xres,
            y < old(self).yres,
            (k0 + w) * 3 <= rows@.len(),
        ensures
            final(self).wf(),
            old(self).same_geometry(*final(self)),
            final(self).image@.len() == old(self).image@.len(),
            forall|x: int|
                x0 <= x < x0 + w ==> pixel_at(
                    final(self).image@,
                    final(self).line_length as int,
                    x,
                    y as int,
                ) == rgb_pixel(rows@, k0 + (x - x0)),
            forall|i: int|
                0 <= i < final(self).image@.len() && !covered(
                    old(self).line_length as int,
                    old(self).xres as int,
                    old(self).yres as int,
                    x0 as int,
                    y as int,
                    w as int,
                    1,
                    i,
                ) ==> final(self).image@[i] == old(self).image@[i],
    {
        let ghost img0 = self.image@;
        let ghost stride = self.line_length as int;
        let ghost xres = self.xres as int;
        let ghost yres = self.yres as int;
        let n = rows.len();
        let mut at: usize = k0 * 3;
        let mut dx: usize = 0;
        while dx < w
            invariant
                self.wf(),
                self.line_length as int == stride,
                self.xres as int == xres,
                self.yres as int == yres,
                dx <= w,
                x0 + w <= xres,
                (y as int) < yres,
                n == rows@.len(),
                (k0 + w) * 3 <= n,
                at == (k0 + dx) * 3,
                self.image@.len() == img0.len(),
                forall|px: int|
                    x0 <= px < x0 + dx ==> pixel_at(self.image@, stride, px, y as int)
                        == rgb_pixel(rows@, k0 + (px - x0)),
                forall|i: int|
                    0 <= i < img0.len() && !covered(
                        stride,
                        xres,
                        yres,
                        x0 as int,
                        y as int,
                        dx as int,
                        1,
                        i,
                    ) ==> self.image@[i] == img0[i],
            decreases w - dx,
        {
            let p = DevicePixel::from_rgb(rows[at], rows[at + 1], rows[at + 2]);
            let ghost pre = self.image@;
            let x = x0 + dx;
            self.put_pixel(x, y, p);
            proof {
                let off = pixel_offset(stride, x as int, y as int);
                lemma_px_bytes(p@);
                lemma_pixel_offset_in_bounds(stride, xres, yres, x as int, y as int);
                assert(self.image@[off] == px_lo(p@));
                assert(pixel_at(self.image@, stride, x as int, y as int) == p@);
                assert(p@ == rgb_pixel(rows@, k0 + dx));
                assert forall|px: int|
                    x0 <= px < x0 + dx implies pixel_at(self.image@, stride, px, y as int)
                    == rgb_pixel(rows@, k0 + (px - x0)) by {
                    let offp = pixel_offset(stride, px, y as int);
                    lemma_pixel_offsets_disjoint(stride, xres, px, y as int, x as int, y as int);
                    lemma_pixel_offset_in_bounds(stride, xres, yres, px, y as int);
                    assert(self.image@[offp] == pre[offp]);
                    assert(self.image@[offp + 1] == pre[offp + 1]);
                    assert(pixel_at(pre, stride, px, y as int) == rgb_pixel(rows@, k0 + (px
                        - x0)));
                };
                assert forall|i: int|
                    0 <= i < img0.len() && !covered(
                        stride,
                        xres,
                        yres,
                        x0 as int,
                        y as int,
                        (dx + 1) as int,
                        1,
                        i,
                    ) implies self.image@[i] == img0[i] by {
                    if i == off || i == off + 1 {
                        let xi = x as int;
                        let yi = y as int;
                        assert(x0 <= xi && xi < x0 + (dx + 1) && yi <= yi && yi < yi + 1 && 0 <= xi
                            && xi < xres && 0 <= yi && yi < yres && (i == pixel_offset(stride, xi,
                            yi) || i == pixel_offset(stride, xi, yi) + 1));
                        assert(covered(stride, xres, yres, x0 as int, y as int, (dx + 1) as int, 1,
                            i));
                    } else {
                        assert(self.image@[i] == pre[i]);
                        if covered(stride, xres, yres, x0 as int, y as int, dx as int, 1, i) {
                            lemma_covered_widen(stride, xres, yres, x0 as int, y as int, dx as int,
                                1, (dx + 1) as int, 1, i);
                        }
                    }
                };
            }
            at = at + 3;
            dx = dx + 1;
        }
    }

    /// Show a `w x h` image of 8-bit RGB triplets (row-major) centered on
    /// an otherwise black screen — how the splash images are drawn.
    pub fn display_rgb_image(&mut self, w: usize, h: usize, rows: &[u8])
        requires
            old(self).wf(),
            w <= old(self).xres,
            h <= old(self).yres,
            rows@.len() == (w * h) * 3,
        ensures
            final(self).wf(),
            old(self).same_geometry(*final(self)),
            forall|x: int, y: int|
                (old(self).xres - w) / 2 <= x < (old(self).xres - w) / 2 + w && (old(self).yres
                    - h) / 2 <= y < (old(self).yres - h) / 2 + h ==> pixel_at(
                    final(self).image@,
                    final(self).line_length as int,
                    x,
                    y,
                ) == rgb_pixel(
                    rows@,
                    (y - (old(self).yres - h) / 2) * w + (x - (old(self).xres - w) / 2),
                ),
            forall|i: int|
                0 <= i < final(self).image@.len() && !covered(
                    old(self).line_length as int,
                    old(self).xres as int,
                    old(self).yres as int,
                    (old(self).xres - w) / 2,
                    (old(self).yres - h) / 2,
                    w as int,
                    h as int,
                    i,
                ) ==> final(self).image@[i] == 0,
    {
        self.clear();
        let x0 = (self.xres - w) / 2;
        let y0 = (self.yres - h) / 2;
        let n = rows.len();
        let ghost img0 = self.image@;
        let ghost stride = self.line_length as int;
        let ghost xres = self.xres as int;
        let ghost yres = self.yres as int;
        let mut row_k: usize = 0;
        let mut dy: usize = 0;
        while dy < h
            invariant
                self.wf(),
                self.line_length as int == stride,
                self.xres as int == xres,
                self.yres as int == yres,
                dy <= h,
                x0 + w <= xres,
                y0 + h <= yres,
                n == rows@.len(),
                rows@.len() == (w * h) * 3,
                row_k == dy * w,
                self.image@.len() == img0.len(),
                forall|i: int| 0 <= i < img0.len() ==> img0[i] == 0,
                forall|px: int, py: int|
                    x0 <= px < x0 + w && y0 <= py < y0 + dy ==> pixel_at(self.image@, stride, px,
                        py) == rgb_pixel(rows@, (py - y0) * (w as int) + (px - x0)),
                forall|i: int|
                    0 <= i < img0.len() && !covered(
                        stride,
                        xres,
                        yres,
                        x0 as int,
                        y0 as int,
                        w as int,
                        dy as int,
                        i,
                    ) ==> self.image@[i] == img0[i],
            decreases h - dy,
        {
            proof {
                assert((dy * w + w) * 3 <= (w * h) * 3 && dy * w + w <= w * h && (dy + 1) * w == dy
                    * w + w && w * h <= (w * h) * 3) by (nonlinear_arith)
                    requires
                        0 <= dy < h,
                        w >= 0,
                ;
            }
            let ghost pre = self.image@;
            let y = y0 + dy;
            self.blit_rgb_row(x0, w, y, rows, row_k);
            proof {
                assert forall|px: int, py: int|
                    x0 <= px < x0 + w && y0 <= py < y0 + dy implies pixel_at(self.image@, stride,
                    px, py) == rgb_pixel(rows@, (py - y0) * (w as int) + (px - x0)) by {
                    let offp = pixel_offset(stride, px, py);
                    lemma_pixel_offset_in_bounds(stride, xres, yres, px, py);
                    if covered(stride, xres, yres, x0 as int, y as int, w as int, 1, offp) {
                        let (cx, cy): (int, int) = choose|cx: int, cy: int|
                            x0 <= cx < x0 + w && y as int <= cy < y as int + 1 && 0 <= cx < xres
                                && 0 <= cy < yres && (offp == #[trigger] pixel_offset(stride, cx,
                                cy) || offp == pixel_offset(stride, cx, cy) + 1);
                        lemma_pixel_offsets_disjoint(stride, xres, px, py, cx, cy);
                    }
                    if covered(stride, xres, yres, x0 as int, y as int, w as int, 1, offp + 1) {
                        let (cx, cy): (int, int) = choose|cx: int, cy: int|
                            x0 <= cx < x0 + w && y as int <= cy < y as int + 1 && 0 <= cx < xres
                                && 0 <= cy < yres && (offp + 1 == #[trigger] pixel_offset(stride,
                                cx, cy) || offp + 1 == pixel_offset(stride, cx, cy) + 1);
                        lemma_pixel_offsets_disjoint(stride, xres, px, py, cx, cy);
                    }
                    assert(self.image@[offp] == pre[offp]);
                    assert(self.image@[offp + 1] == pre[offp + 1]);
                    assert(pixel_at(pre, stride, px, py) == rgb_pixel(rows@, (py - y0) * (
                    w as int) + (px - x0)));
                };
                assert forall|px: int|
                    x0 <= px < x0 + w implies pixel_at(self.image@, stride, px, y as int)
                    == rgb_pixel(rows@, (y as int - y0) * (w as int) + (px - x0)) by {
                    assert(pixel_at(self.image@, stride, px, y as int) == rgb_pixel(rows@, row_k
                        + (px - x0)));
                };
                assert forall|i: int|
                    0 <= i < img0.len() && !covered(
                        stride,
                        xres,
                        yres,
                        x0 as int,
                        y0 as int,
                        w as int,
                        (dy + 1) as int,
                        i,
                    ) implies self.image@[i] == img0[i] by {
                    if covered(stride, xres, yres, x0 as int, y as int, w as int, 1, i) {
                        let (cx, cy): (int, int) = choose|cx: int, cy: int|
                            x0 <= cx < x0 + w && y as int <= cy < y as int + 1 && 0 <= cx < xres
                                && 0 <= cy < yres && (i == #[trigger] pixel_offset(stride, cx, cy)
                                || i == pixel_offset(stride, cx, cy) + 1);
                        assert(y0 <= cy < y0 + (dy + 1));
                        assert(covered(stride, xres, yres, x0 as int, y0 as int, w as int,
                            (dy + 1) as int, i));
                    }
                    assert(self.image@[i] == pre[i]);
                    if covered(stride, xres, yres, x0 as int, y0 as int, w as int, dy as int, i) {
                        lemma_covered_widen(stride, xres, yres, x0 as int, y0 as int, w as int,
                            dy as int, w as int, (dy + 1) as int, i);
                    }
                };
            }
            row_k = row_k + w;
            dy = dy + 1;
        }
        proof {
            assert(x0 as int == (old(self).xres - w) / 2);
            assert(y0 as int == (old(self).yres - h) / 2);
            assert forall|i: int|
                0 <= i < self.image@.len() && !covered(
                    stride,
                    xres,
                    yres,
                    x0 as int,
                    y0 as int,
                    w as int,
                    h as int,
                    i,
                ) implies self.image@[i] == 0 by {
                assert(self.image@[i] == img0[i]);
                assert(img0[i] == 0);
            };
        }
    }
}

/// A byte covered by a rectangle is covered by any enclosing rectangle with
/// the same corner.
pub proof fn lemma_covered_widen(
    stride: int,
    xres: int,
    yres: int,
    x0: int,
    y0: int,
    w1: int,
    h1: int,
    w2: int,
    h2: int,
    i: int,
)
    requires
        covered(stride, xres, yres, x0, y0, w1, h1, i),
        w1 <= w2,
        h1 <= h2,
    ensures
        covered(stride, xres, yres, x0, y0, w2, h2, i),
{
    let (x, y): (int, int) = choose|x: int, y: int|
        x0 <= x < x0 + w1 && y0 <= y < y0 + h1 && 0 <= x < xres && 0 <= y < yres && (i
            == #[trigger] pixel_offset(stride, x, y) || i == pixel_offset(stride, x, y) + 1);
    assert(x0 <= x < x0 + w2 && y0 <= y < y0 + h2 && 0 <= x < xres && 0 <= y < yres && (i
        == pixel_offset(stride, x, y) || i == pixel_offset(stride, x, y) + 1));
}

} // verus!
