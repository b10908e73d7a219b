//! The frame decoder: turns FrameUpdate bytes from the server into pixel
//! writes on the screen image. Raw and HexTile rectangle encodings are
//! supported. The decoder is an incremental state machine: it names how
//! many bytes it needs next, and is handed exactly that many.

use vstd::prelude::*;
use crate::errors::{RfbSessionError, RfbSessionErrorKind};
use crate::pixel::{DevicePixel, PixelFormat, spec_translate, to_device_pixel};
use crate::screen::{
    Screen, covered, pixel_at, pixel_offset, lemma_pixel_offset_in_bounds,
    lemma_pixel_offsets_disjoint, lemma_covered_widen, lemma_px_bytes,
};

verus! {

/// The device pixel that the `k`-th server pixel of `bytes` translates to.
pub open spec fn translated_pixel(pf: PixelFormat, bytes: Seq<u8>, k: int) -> u16 {
    spec_translate(pf, bytes.skip(k * pf.bytes_per_pixel_spec()))
}

/// Decode one row of `w` raw server pixels, the ones numbered `k0` to
/// `k0 + w` in `bytes`, into screen row `y` starting at column `x0`. The
/// row must lie inside the visible area.
fn blit_raw_row(
    screen: &mut Screen,
    x0: usize,
    w: usize,
    y: usize,
    pf: &PixelFormat,
    same_format: bool,
    bytes: &[u8],
    k0: usize,
)
    requires
        old(screen).wf(),
        pf.is_supported_spec(),
        same_format == pf.is_same_format_spec(),
        x0 + w <= old(screen).xres,
        y < old(screen).yres,
        (k0 + w) * pf.bytes_per_pixel_spec() <= bytes@.len(),
    ensures
        final(screen).wf(),
        old(screen).same_geometry(*final(screen)),
        final(screen).image@.len() == old(screen).image@.len(),
        forall|x: int|
            x0 <= x < x0 + w ==> pixel_at(
                final(screen).image@,
                final(screen).line_length as int,
                x,
                y as int,
            ) == translated_pixel(*pf, bytes@, k0 + (x - x0)),
        forall|i: int|
            0 <= i < final(screen).image@.len() && !covered(
                old(screen).line_length as int,
                old(screen).xres as int,
                old(screen).yres as int,
                x0 as int,
                y as int,
                w as int,
                1,
                i,
            ) ==> final(screen).image@[i] == old(screen).image@[i],
{
    let ghost img0 = screen.image@;
    let ghost stride = screen.line_length as int;
    let ghost xres = screen.xres as int;
    let ghost yres = screen.yres as int;
    let n = bytes.len();
    let bpsp = pf.bytes_per_pixel();
    proof {
        assert(k0 * pf.bytes_per_pixel_spec() <= (k0 + w) * pf.bytes_per_pixel_spec())
            by (nonlinear_arith)
            requires
                w >= 0,
                pf.bytes_per_pixel_spec() >= 0,
        ;
    }
    let mut at: usize = k0 * bpsp;
    let mut dx: usize = 0;
    while dx < w
        invariant
            screen.wf(),
            screen.line_length as int == stride,
            screen.xres as int == xres,
            screen.yres as int == yres,
            dx <= w,
            x0 + w <= xres,
            (y as int) < yres,
            pf.is_supported_spec(),
            same_format == pf.is_same_format_spec(),
            n == bytes@.len(),
            bpsp == pf.bytes_per_pixel_spec(),
            (k0 + w) * pf.bytes_per_pixel_spec() <= n,
            at == (k0 + dx) * pf.bytes_per_pixel_spec(),
            screen.image@.len() == img0.len(),
            forall|px: int|
                x0 <= px < x0 + dx ==> pixel_at(screen.image@, stride, px, y as int)
                    == translated_pixel(*pf, bytes@, k0 + (px - x0)),
            forall|i: int|
                0 <= i < img0.len() && !covered(
                    stride,
                    xres,
                    yres,
                    x0 as int,
                    y as int,
                    dx as int,
                    1,
                    i,
                ) ==> screen.image@[i] == img0[i],
        decreases w - dx,
    {
        proof {
            assert((k0 + dx) * pf.bytes_per_pixel_spec() + pf.bytes_per_pixel_spec() <= (k0 + w)
                * pf.bytes_per_pixel_spec() && (k0 + dx) * pf.bytes_per_pixel_spec() >= 0 && (k0
                + dx + 1) * pf.bytes_per_pixel_spec() == (k0 + dx) * pf.bytes_per_pixel_spec()
                + pf.bytes_per_pixel_spec()) by (nonlinear_arith)
                requires
                    0 <= dx < w,
                    k0 >= 0,
                    pf.bytes_per_pixel_spec() >= 0,
            ;
        }
        let p = to_device_pixel(pf, same_format, bytes, at);
        let ghost pre = screen.image@;
        let x = x0 + dx;
        screen.put_pixel(x, y, p);
        proof {
            let off = pixel_offset(stride, x as int, y as int);
            lemma_px_bytes(p@);
            lemma_pixel_offset_in_bounds(stride, xres, yres, x as int, y as int);
            assert(screen.image@[off] == crate::screen::px_lo(p@));
            assert(pixel_at(screen.image@, stride, x as int, y as int) == p@);
            assert(p@ == translated_pixel(*pf, bytes@, k0 + dx));
            assert forall|px: int|
                x0 <= px < x0 + dx implies pixel_at(screen.image@, stride, px, y as int)
                == translated_pixel(*pf, bytes@, k0 + (px - x0)) by {
                let offp = pixel_offset(stride, px, y as int);
                lemma_pixel_offsets_disjoint(stride, xres, px, y as int, x as int, y as int);
                lemma_pixel_offset_in_bounds(stride, xres, yres, px, y as int);
                assert(screen.image@[offp] == pre[offp]);
                assert(screen.image@[offp + 1] == pre[offp + 1]);
                assert(pixel_at(pre, stride, px, y as int) == translated_pixel(*pf, bytes@, k0
                    + (px - x0)));
            };
            assert forall|i: int|
                0 <= i < img0.len() && !covered(
                    stride,
                    xres,
                    yres,
                    x0 as int,
                    y as int,
                    (dx + 1) as int,
                    1,
                    i,
                ) implies screen.image@[i] == img0[i] by {
                if i == off || i == off + 1 {
                    let xi = x as int;
                    let yi = y as int;
                    assert(x0 <= xi && xi < x0 + (dx + 1) && yi <= yi && yi < yi + 1 && 0 <= xi
                        && xi < xres && 0 <= yi && yi < yres && (i == pixel_offset(stride, xi, yi)
                        || i == pixel_offset(stride, xi, yi) + 1));
                    assert(covered(stride, xres, yres, x0 as int, y as int, (dx + 1) as int, 1,
                        i));
                } else {
                    assert(screen.image@[i] == pre[i]);
                    if covered(stride, xres, yres, x0 as int, y as int, dx as int, 1, i) {
                        lemma_covered_widen(stride, xres, yres, x0 as int, y as int, dx as int, 1,
                            (dx + 1) as int, 1, i);
                    }
                }
            };
        }
        at = at + bpsp;
        dx = dx + 1;
    }
}

/// Decode a `w x h` block of raw server pixels (row-major in `bytes`) into
/// the screen at `(x0, y0)`. The block must lie inside the visible area;
/// afterwards the block holds the translated pixels and no byte outside it
/// has changed.
pub fn blit_raw_pixels(
    screen: &mut Screen,
    x0: usize,
    y0: usize,
    w: usize,
    h: usize,
    pf: &PixelFormat,
    same_format: bool,
    bytes: &[u8],
)
    requires
        old(screen).wf(),
        pf.is_supported_spec(),
        same_format == pf.is_same_format_spec(),
        x0 + w <= old(screen).xres,
        y0 + h <= old(screen).yres,
        bytes@.len() == (w * h) * pf.bytes_per_pixel_spec(),
    ensures
        final(screen).wf(),
        old(screen).same_geometry(*final(screen)),
        final(screen).image@.len() == old(screen).image@.len(),
        forall|x: int, y: int|
            x0 <= x < x0 + w && y0 <= y < y0 + h ==> pixel_at(
                final(screen).image@,
                final(screen).line_length as int,
                x,
                y,
            ) == translated_pixel(*pf, bytes@, (y - y0) * (w as int) + (x - x0)),
        forall|i: int|
            0 <= i < final(screen).image@.len() && !covered(
                old(screen).line_length as int,
                old(screen).xres as int,
                old(screen).yres as int,
                x0 as int,
                y0 as int,
                w as int,
                h as int,
                i,
            ) ==> final(screen).image@[i] == old(screen).image@[i],
{
    let ghost img0 = screen.image@;
    let ghost stride = screen.line_length as int;
    let ghost xres = screen.xres as int;
    let ghost yres = screen.yres as int;
    let n = bytes.len();
    let mut row_k: usize = 0;
    let mut dy: usize = 0;
    while dy < h
        invariant
            screen.wf(),
            screen.line_length as int == stride,
            screen.xres as int == xres,
            screen.yres as int == yres,
            dy <= h,
            x0 + w <= xres,
            y0 + h <= yres,
            pf.is_supported_spec(),
            same_format == pf.is_same_format_spec(),
            n == bytes@.len(),
            bytes@.len() == (w * h) * pf.bytes_per_pixel_spec(),
            row_k == dy * w,
            screen.image@.len() == img0.len(),
            forall|px: int, py: int|
                x0 <= px < x0 + w && y0 <= py < y0 + dy ==> pixel_at(screen.image@, stride, px, py)
                    == translated_pixel(*pf, bytes@, (py - y0) * (w as int) + (px - x0)),
            forall|i: int|
                0 <= i < img0.len() && !covered(
                    stride,
                    xres,
                    yres,
                    x0 as int,
                    y0 as int,
                    w as int,
                    dy as int,
                    i,
                ) ==> screen.image@[i] == img0[i],
        decreases h - dy,
    {
        proof {
            assert((dy * w + w) * pf.bytes_per_pixel_spec() <= (w * h)
                * pf.bytes_per_pixel_spec() && dy * w + w <= w * h && (dy + 1) * w == dy * w + w
                && w * h <= (w * h) * pf.bytes_per_pixel_spec()) by (nonlinear_arith)
                requires
                    0 <= dy < h,
                    w >= 0,
                    pf.bytes_per_pixel_spec() >= 1,
            ;
        }
        let ghost pre = screen.image@;
        let y = y0 + dy;
        blit_raw_row(screen, x0, w, y, pf, same_format, bytes, row_k);
        proof {
            assert forall|px: int, py: int|
                x0 <= px < x0 + w && y0 <= py < y0 + dy implies pixel_at(screen.image@, stride,
                px, py) == translated_pixel(*pf, bytes@, (py - y0) * (w as int) + (px - x0)) by {
                let offp = pixel_offset(stride, px, py);
                lemma_pixel_offset_in_bounds(stride, xres, yres, px, py);
                if covered(stride, xres, yres, x0 as int, y as int, w as int, 1, offp) {
                    let (cx, cy): (int, int) = choose|cx: int, cy: int|
                        x0 <= cx < x0 + w && y as int <= cy < y as int + 1 && 0 <= cx < xres && 0
                            <= cy < yres && (offp == #[trigger] pixel_offset(stride, cx, cy)
                            || offp == pixel_offset(stride, cx, cy) + 1);
                    lemma_pixel_offsets_disjoint(stride, xres, px, py, cx, cy);
                }
                if covered(stride, xres, yres, x0 as int, y as int, w as int, 1, offp + 1) {
                    let (cx, cy): (int, int) = choose|cx: int, cy: int|
                        x0 <= cx < x0 + w && y as int <= cy < y as int + 1 && 0 <= cx < xres && 0
                            <= cy < yres && (offp + 1 == #[trigger] pixel_offset(stride, cx, cy)
                            || offp + 1 == pixel_offset(stride, cx, cy) + 1);
                    lemma_pixel_offsets_disjoint(stride, xres, px, py, cx, cy);
                }
                assert(screen.image@[offp] == pre[offp]);
                assert(screen.image@[offp + 1] == pre[offp + 1]);
                assert(pixel_at(pre, stride, px, py) == translated_pixel(*pf, bytes@, (py - y0)
                    * (w as int) + (px - x0)));
            };
            assert forall|px: int|
                x0 <= px < x0 + w implies pixel_at(screen.image@, stride, px, y as int)
                == translated_pixel(*pf, bytes@, (y as int - y0) * (w as int) + (px - x0)) by {
                assert(pixel_at(screen.image@, stride, px, y as int) == translated_pixel(*pf,
                    bytes@, row_k + (px - x0)));
            };
            assert forall|i: int|
                0 <= i < img0.len() && !covered(
                    stride,
                    xres,
                    yres,
                    x0 as int,
                    y0 as int,
                    w as int,
                    (dy + 1) as int,
                    i,
                ) implies screen.image@[i] == img0[i] by {
                if covered(stride, xres, yres, x0 as int, y as int, w as int, 1, i) {
                    let (cx, cy): (int, int) = choose|cx: int, cy: int|
                        x0 <= cx < x0 + w && y as int <= cy < y as int + 1 && 0 <= cx < xres && 0
                            <= cy < yres && (i == #[trigger] pixel_offset(stride, cx, cy) || i
                            == pixel_offset(stride, cx, cy) + 1);
                    assert(y0 <= cy < y0 + (dy + 1));
                    assert(covered(stride, xres, yres, x0 as int, y0 as int, w as int,
                        (dy + 1) as int, i));
                }
                assert(screen.image@[i] == pre[i]);
                if covered(stride, xres, yres, x0 as int, y0 as int, w as int, dy as int, i) {
                    lemma_covered_widen(stride, xres, yres, x0 as int, y0 as int, w as int,
                        dy as int, w as int, (dy + 1) as int, i);
                }
            };
        }
        row_k = row_k + w;
        dy = dy + 1;
    }
}

/// How many 16-pixel tiles cover a run of `len` pixels.
pub open spec fn tile_count(len: int) -> int {
    (len + 15) / 16
}

/// The extent of tile `t` in a run of `len` pixels: 16 for every tile but
/// the last, which takes what remains (`len % 16`, or 16 when `len` is a
/// multiple of 16).
pub open spec fn tile_extent(len: int, t: int) -> int {
    if 16 * t + 16 <= len {
        16
    } else {
        len - 16 * t
    }
}

/// Every tile cell of a run is nonempty, at most 16 long, and lies inside
/// the run.
pub proof fn lemma_tile_cell_in_run(len: int, t: int)
    requires
        0 <= t < tile_count(len),
    ensures
        1 <= tile_extent(len, t) <= 16,
        16 * t + tile_extent(len, t) <= len,
{
    assert(16 * t + 16 <= len || (1 <= len - 16 * t <= 16)) by (nonlinear_arith)
        requires
            0 <= t < (len + 15) / 16,
    ;
}

/// Tiling one axis: every position `p` of the run lies in tile `p / 16`
/// and in no other tile.
pub proof fn lemma_tile_partition_axis(len: int, p: int)
    requires
        0 <= p < len,
    ensures
        0 <= p / 16 < tile_count(len),
        16 * (p / 16) <= p < 16 * (p / 16) + tile_extent(len, p / 16),
        forall|t: int|
            0 <= t < tile_count(len) && t != p / 16 ==> !(16 * t <= p < 16 * t + #[trigger]
            tile_extent(len, t)),
{
    assert(0 <= p / 16 < (len + 15) / 16 && 16 * (p / 16) <= p < 16 * (p / 16) + 16)
        by (nonlinear_arith)
        requires
            0 <= p < len,
    ;
    assert forall|t: int|
        0 <= t < tile_count(len) && t != p / 16 implies !(16 * t <= p < 16 * t + #[trigger]
        tile_extent(len, t)) by {
        lemma_tile_cell_in_run(len, t);
        assert(t < p / 16 ==> 16 * t + 16 <= 16 * (p / 16)) by (nonlinear_arith);
        assert(t > p / 16 ==> 16 * t >= 16 * (p / 16) + 16) by (nonlinear_arith);
    };
}

/// HexTile tiling: the 16-by-16 tile grid of a `w x h` rectangle
/// partitions it exactly. Each pixel `(x, y)` of the rectangle lies in
/// tile `(x / 16, y / 16)` and in no other tile, and every tile cell is
/// nonempty and lies inside the rectangle, the edge tiles taking the
/// division remainders.
pub proof fn lemma_hextile_tiling(w: int, h: int, x: int, y: int)
    requires
        0 <= x < w,
        0 <= y < h,
    ensures
        0 <= x / 16 < tile_count(w),
        0 <= y / 16 < tile_count(h),
        16 * (x / 16) <= x < 16 * (x / 16) + tile_extent(w, x / 16),
        16 * (y / 16) <= y < 16 * (y / 16) + tile_extent(h, y / 16),
        forall|tc: int, tr: int|
            0 <= tc < tile_count(w) && 0 <= tr < tile_count(h) && (tc != x / 16 || tr != y / 16)
                ==> !(16 * tc <= x < 16 * tc + #[trigger] tile_extent(w, tc) && 16 * tr <= y < 16
                * tr + #[trigger] tile_extent(h, tr)),
{
    lemma_tile_partition_axis(w, x);
    lemma_tile_partition_axis(h, y);
}

/// The extent of tile `t` along a `len`-pixel axis.
fn tile_extent_len(len: u16, t: u16) -> (e: usize)
    requires
        0 <= (t as int) < tile_count(len as int),
    ensures
        e as int == tile_extent(len as int, t as int),
        16 * (t as int) + e <= len as int,
        1 <= e <= 16,
{
    proof {
        lemma_tile_cell_in_run(len as int, t as int);
    }
    let base = 16 * (t as usize);
    if base + 16 <= len as usize {
        16
    } else {
        (len as usize) - base
    }
}

/// The sticky HexTile colours. Both start black at the first tile of each
/// rectangle and persist across its tiles until a tile's mask replaces
/// them.
#[derive(Clone, Copy, Debug, PartialEq, Eq, Structural)]
pub struct HexTileDecoder {
    pub foreground: DevicePixel,
    pub background: DevicePixel,
}

impl HexTileDecoder {
    /// Fresh sticky colours for a new rectangle: both black.
    pub fn new() -> (d: HexTileDecoder)
        ensures
            d.foreground@ == 0,
            d.background@ == 0,
    {
        proof {
            assert((((0u8 as u16) >> 3) << 11) | (((0u8 as u16) >> 2) << 5) | ((0u8 as u16) >> 3)
                == 0u16) by (bit_vector);
        }
        HexTileDecoder {
            foreground: DevicePixel::from_rgb(0, 0, 0),
            background: DevicePixel::from_rgb(0, 0, 0),
        }
    }

    /// Fill one subrectangle of a tile, both given relative to the screen
    /// resp. the tile origin, with a single pixel value, clipped to the
    /// visible area.
    pub fn fill_subrect(
        screen: &mut Screen,
        tile_rect: &crate::rfb_messages::Rect,
        subrect: &crate::rfb_messages::Rect,
        pixel: DevicePixel,
    )
        requires
            old(screen).wf(),
        ensures
            final(screen).wf(),
            old(screen).same_geometry(*final(screen)),
            final(screen).image@.len() == old(screen).image@.len(),
            forall|x: int, y: int|
                tile_rect.location.x + subrect.location.x <= x < tile_rect.location.x
                    + subrect.location.x + subrect.size.width && tile_rect.location.y
                    + subrect.location.y <= y < tile_rect.location.y + subrect.location.y
                    + subrect.size.height && 0 <= x < final(screen).xres && 0 <= y
                    < final(screen).yres ==> pixel_at(
                    final(screen).image@,
                    final(screen).line_length as int,
                    x,
                    y,
                ) == pixel@,
            forall|i: int|
                0 <= i < final(screen).image@.len() && !covered(
                    old(screen).line_length as int,
                    old(screen).xres as int,
                    old(screen).yres as int,
                    tile_rect.location.x + subrect.location.x,
                    tile_rect.location.y + subrect.location.y,
                    subrect.size.width as int,
                    subrect.size.height as int,
                    i,
                ) ==> final(screen).image@[i] == old(screen).image@[i],
    {
        let x0 = tile_rect.location.x as usize + subrect.location.x as usize;
        let y0 = tile_rect.location.y as usize + subrect.location.y as usize;
        screen.fill_rect(x0, y0, subrect.size.width as usize, subrect.size.height as usize, pixel);
    }
}

/// What the frame decoder is waiting for next.
#[derive(Clone, Copy, Debug, PartialEq, Eq, Structural)]
pub enum DecodePhase {
    /// The two-byte server command code.
    AwaitCommand,
    /// The two-byte rectangle count of a FrameUpdate.
    AwaitRectCount,
    /// A twelve-byte rectangle header: x, y, width, height, encoding.
    AwaitRectHeader,
    /// The raw pixel block of the current rectangle.
    AwaitRawPixels,
    /// The one-byte mask of the current HexTile tile.
    AwaitTileMask,
    /// The raw pixel block of the current tile.
    AwaitTileRawPixels,
    /// The optional background pixel, foreground pixel and subrectangle
    /// count that the tile's mask announced.
    AwaitTileParams { mask: u8 },
    /// One subrectangle: its pixel (when colored), then position and size.
    AwaitTileSubrects { remaining: u8, colored: bool },
}

/// What one decoding step produced.
#[derive(Clone, Copy, Debug, PartialEq, Eq, Structural)]
pub enum DecodeAction {
    /// More server bytes are wanted; nothing frame-level happened.
    Carry,
    /// A whole FrameUpdate has been decoded: blit the image to the device
    /// and request the next (incremental) update.
    FrameComplete,
}

/// The rectangle count, phase and action after the current rectangle is
/// done: the frame is complete when it was the last one.
pub open spec fn spec_finish_rect_counters(rects_left: int) -> (int, DecodePhase, DecodeAction) {
    if rects_left <= 1 {
        (0, DecodePhase::AwaitCommand, DecodeAction::FrameComplete)
    } else {
        (rects_left - 1, DecodePhase::AwaitRectHeader, DecodeAction::Carry)
    }
}

/// The tile position, rectangle count, phase and action after the current
/// tile is done: tiles advance left to right, then top to bottom, and the
/// last tile finishes the rectangle.
pub open spec fn spec_finish_tile_counters(
    col: int,
    row: int,
    w: int,
    h: int,
    rects_left: int,
) -> (int, int, int, DecodePhase, DecodeAction) {
    if col + 1 < tile_count(w) {
        (col + 1, row, rects_left, DecodePhase::AwaitTileMask, DecodeAction::Carry)
    } else if row + 1 < tile_count(h) {
        (0, row + 1, rects_left, DecodePhase::AwaitTileMask, DecodeAction::Carry)
    } else {
        let fr = spec_finish_rect_counters(rects_left);
        (col, row, fr.0, fr.1, fr.2)
    }
}

/// The new background after a tile's parameter bytes: replaced exactly
/// when the mask's BackgroundSpecified bit is set.
pub open spec fn params_bg(pf: PixelFormat, mask: u8, input: Seq<u8>, old_bg: u16) -> u16 {
    if mask & 2 != 0 {
        spec_translate(pf, input)
    } else {
        old_bg
    }
}

/// The new foreground after a tile's parameter bytes: replaced exactly
/// when the mask's ForegroundSpecified bit is set (its pixel follows the
/// background pixel, when that one is present).
pub open spec fn params_fg(pf: PixelFormat, mask: u8, input: Seq<u8>, old_fg: u16) -> u16 {
    if mask & 4 != 0 {
        spec_translate(
            pf,
            input.skip(if mask & 2 != 0 { pf.bytes_per_pixel_spec() as int } else { 0 }),
        )
    } else {
        old_fg
    }
}

/// The tile's subrectangle count: the byte after the optional pixels when
/// the mask's AnySubrects bit is set, otherwise zero.
pub open spec fn params_count(pf: PixelFormat, mask: u8, input: Seq<u8>) -> u8 {
    if mask & 8 != 0 {
        input[(if mask & 2 != 0 { pf.bytes_per_pixel_spec() as int } else { 0 }) + (if mask & 4
            != 0 { pf.bytes_per_pixel_spec() as int } else { 0 })]
    } else {
        0
    }
}

/// How many bytes a tile's parameter phase needs.
pub open spec fn params_len(pf: PixelFormat, mask: u8) -> int {
    (if mask & 2 != 0 { pf.bytes_per_pixel_spec() as int } else { 0 }) + (if mask & 4 != 0 {
        pf.bytes_per_pixel_spec() as int
    } else { 0 }) + (if mask & 8 != 0 { 1int } else { 0 })
}

/// HexTile sticky colours: a tile whose mask lacks ForegroundSpecified
/// leaves the foreground exactly as the previous tile left it, so across
/// two such tiles in a row it is unchanged — transitively, back to the
/// rectangle's initial black.
pub proof fn lemma_sticky_foreground(
    pf: PixelFormat,
    mask1: u8,
    input1: Seq<u8>,
    mask2: u8,
    input2: Seq<u8>,
    fg0: u16,
)
    requires
        mask1 & 4 == 0,
        mask2 & 4 == 0,
    ensures
        params_fg(pf, mask2, input2, params_fg(pf, mask1, input1, fg0)) == fg0,
{
}

/// A subrectangle's offsets and size, packed in two bytes: `xy` holds the
/// x and y offsets in its high and low nibble; `wh` holds width minus one
/// and height minus one likewise.
pub open spec fn sub_x(xy: u8) -> int {
    (xy >> 4) as int
}

pub open spec fn sub_y(xy: u8) -> int {
    (xy & 0x0f) as int
}

pub open spec fn sub_w(wh: u8) -> int {
    (wh >> 4) + 1
}

pub open spec fn sub_h(wh: u8) -> int {
    (wh & 0x0f) + 1
}

/// The FrameUpdate decoder. After the handshake it is fed the server's
/// byte stream in pieces: `needed()` says how many bytes the current phase
/// wants, `advance()` consumes exactly that many and steps the machine,
/// writing decoded pixels into the screen image as it goes.
#[derive(Clone, Copy, Debug, PartialEq, Eq, Structural)]
pub struct FrameDecoder {
    pub pf: PixelFormat,
    pub same_format: bool,
    pub xres: u16,
    pub yres: u16,
    pub rects_left: u16,
    pub rect: crate::rfb_messages::Rect,
    pub tile_col: u16,
    pub tile_row: u16,
    pub tiles: HexTileDecoder,
    pub phase: DecodePhase,
}

impl FrameDecoder {
    /// Phases that work inside the current rectangle.
    pub open spec fn in_rect_phase(self) -> bool {
        ||| self.phase is AwaitRawPixels
        ||| self.in_tile_phase()
    }

    /// Phases that work inside the current tile.
    pub open spec fn in_tile_phase(self) -> bool {
        ||| self.phase is AwaitTileMask
        ||| self.phase is AwaitTileRawPixels
        ||| self.phase matches DecodePhase::AwaitTileParams { .. }
        ||| self.phase matches DecodePhase::AwaitTileSubrects { .. }
    }

    /// The current tile's origin and extent.
    pub open spec fn tile_x0(self) -> int {
        self.rect.location.x + 16 * self.tile_col
    }

    pub open spec fn tile_y0(self) -> int {
        self.rect.location.y + 16 * self.tile_row
    }

    pub open spec fn tile_w(self) -> int {
        tile_extent(self.rect.size.width as int, self.tile_col as int)
    }

    pub open spec fn tile_h(self) -> int {
        tile_extent(self.rect.size.height as int, self.tile_row as int)
    }

    /// Well-formed: the pixel format is one the translator accepts, the
    /// cached same-format flag is honest, the screen area is small enough
    /// for offset arithmetic, and whatever the phase is working on —
    /// rectangle, tile, pending subrectangles — is consistent.
    pub open spec fn wf(self) -> bool {
        &&& self.pf.is_supported_spec()
        &&& self.same_format == self.pf.is_same_format_spec()
        &&& 2 * (self.xres as int) * (self.yres as int) <= 0x4000_0000
        &&& (self.in_rect_phase() ==> self.rect.location.x + self.rect.size.width <= self.xres
            && self.rect.location.y + self.rect.size.height <= self.yres && self.rects_left >= 1)
        &&& (self.in_tile_phase() ==> (self.tile_col as int) < tile_count(
            self.rect.size.width as int,
        ) && (self.tile_row as int) < tile_count(self.rect.size.height as int))
        &&& (self.phase is AwaitRectHeader ==> self.rects_left >= 1)
        &&& (self.phase matches DecodePhase::AwaitTileSubrects { remaining, .. } ==> remaining
            >= 1)
    }

    /// How many bytes the current phase needs next.
    pub open spec fn needed_spec(self) -> int {
        match self.phase {
            DecodePhase::AwaitCommand => 2,
            DecodePhase::AwaitRectCount => 2,
            DecodePhase::AwaitRectHeader => 12,
            DecodePhase::AwaitRawPixels => ((self.rect.size.width as int) * (
            self.rect.size.height as int)) * (self.pf.bytes_per_pixel_spec() as int),
            DecodePhase::AwaitTileMask => 1,
            DecodePhase::AwaitTileRawPixels => (self.tile_w() * self.tile_h()) * (
            self.pf.bytes_per_pixel_spec() as int),
            DecodePhase::AwaitTileParams { mask } => params_len(self.pf, mask),
            DecodePhase::AwaitTileSubrects { remaining, colored } => 2 + if colored {
                self.pf.bytes_per_pixel_spec() as int
            } else {
                0
            },
        }
    }

    /// A decoder ready for the first server command, for a session whose
    /// handshake produced `pf` and whose display is `screen`.
    pub fn new(pf: PixelFormat, screen: &Screen) -> (d: FrameDecoder)
        requires
            pf.is_supported_spec(),
            screen.wf(),
        ensures
            d.wf(),
            d.pf == pf,
            d.same_format == pf.is_same_format_spec(),
            d.xres == screen.xres as u16,
            d.yres == screen.yres as u16,
            d.phase is AwaitCommand,
    {
        proof {
            assert(2 * (screen.xres as int) * (screen.yres as int) <= 0x4000_0000)
                by (nonlinear_arith)
                requires
                    2 * (screen.xres as int) <= screen.line_length as int,
                    (screen.line_length as int) * (screen.yres as int) <= 0x4000_0000,
                    screen.yres >= 0,
            ;
        }
        let same_format = pf.is_same_format();
        FrameDecoder {
            pf,
            same_format,
            xres: screen.xres() as u16,
            yres: screen.yres() as u16,
            rects_left: 0,
            rect: crate::rfb_messages::Rect {
                location: crate::rfb_messages::Point { x: 0, y: 0 },
                size: crate::rfb_messages::Size { width: 0, height: 0 },
            },
            tile_col: 0,
            tile_row: 0,
            tiles: HexTileDecoder::new(),
            phase: DecodePhase::AwaitCommand,
        }
    }

    /// How many bytes to read from the server before the next `advance`.
    pub fn needed(&self) -> (n: usize)
        requires
            self.wf(),
        ensures
            n as int == self.needed_spec(),
    {
        match self.phase {
            DecodePhase::AwaitCommand => 2,
            DecodePhase::AwaitRectCount => 2,
            DecodePhase::AwaitRectHeader => 12,
            DecodePhase::AwaitRawPixels => {
                let w = self.rect.size.width as usize;
                let h = self.rect.size.height as usize;
                let b = self.pf.bytes_per_pixel();
                proof {
                    assert((w as int) * (h as int) <= 0x4000_0000 && (w as int) * (h as int) * (
                    self.pf.bytes_per_pixel_spec() as int) <= 0x8000_0000) by (nonlinear_arith)
                        requires
                            0 <= w as int <= self.xres as int,
                            0 <= h as int <= self.yres as int,
                            2 * (self.xres as int) * (self.yres as int) <= 0x4000_0000,
                            0 <= self.pf.bytes_per_pixel_spec() <= 4,
                    ;
                    assert(self.pf.bytes_per_pixel_spec() <= 4);
                }
                (w * h) * b
            },
            DecodePhase::AwaitTileMask => 1,
            DecodePhase::AwaitTileRawPixels => {
                let tw = tile_extent_len(self.rect.size.width, self.tile_col);
                let th = tile_extent_len(self.rect.size.height, self.tile_row);
                proof {
                    assert(self.pf.bytes_per_pixel_spec() <= 4);
                    assert((tw as int) * (th as int) <= 256 && ((tw as int) * (th as int)) * (
                    self.pf.bytes_per_pixel_spec() as int) <= 1024) by (nonlinear_arith)
                        requires
                            1 <= tw as int <= 16,
                            1 <= th as int <= 16,
                            0 <= self.pf.bytes_per_pixel_spec() <= 4,
                    ;
                }
                (tw * th) * self.pf.bytes_per_pixel()
            },
            DecodePhase::AwaitTileParams { mask } => {
                let b = self.pf.bytes_per_pixel();
                let mut n: usize = 0;
                if mask & 2 != 0 {
                    n = n + b;
                }
                if mask & 4 != 0 {
                    n = n + b;
                }
                if mask & 8 != 0 {
                    n = n + 1;
                }
                n
            },
            DecodePhase::AwaitTileSubrects { remaining: _, colored } => {
                if colored {
                    2 + self.pf.bytes_per_pixel()
                } else {
                    2
                }
            },
        }
    }

    /// Step the counters past a finished rectangle.
    fn finish_rect(&mut self) -> (a: DecodeAction)
        requires
            old(self).wf(),
            old(self).rects_left >= 1,
        ensures
            (final(self).rects_left as int, final(self).phase, a) == spec_finish_rect_counters(
                old(self).rects_left as int,
            ),
            final(self).pf == old(self).pf,
            final(self).same_format == old(self).same_format,
            final(self).xres == old(self).xres,
            final(self).yres == old(self).yres,
            final(self).rect == old(self).rect,
            final(self).tile_col == old(self).tile_col,
            final(self).tile_row == old(self).tile_row,
            final(self).tiles == old(self).tiles,
            final(self).wf(),
    {
        if self.rects_left <= 1 {
            self.rects_left = 0;
            self.phase = DecodePhase::AwaitCommand;
            DecodeAction::FrameComplete
        } else {
            self.rects_left = self.rects_left - 1;
            self.phase = DecodePhase::AwaitRectHeader;
            DecodeAction::Carry
        }
    }

    /// Step the counters past a finished tile: on to the next tile of the
    /// rectangle, or past the rectangle after its last tile.
    fn finish_tile(&mut self) -> (a: DecodeAction)
        requires
            old(self).wf(),
            old(self).in_tile_phase(),
        ensures
            (
                final(self).tile_col as int,
                final(self).tile_row as int,
                final(self).rects_left as int,
                final(self).phase,
                a,
            ) == spec_finish_tile_counters(
                old(self).tile_col as int,
                old(self).tile_row as int,
                old(self).rect.size.width as int,
                old(self).rect.size.height as int,
                old(self).rects_left as int,
            ),
            final(self).pf == old(self).pf,
            final(self).same_format == old(self).same_format,
            final(self).xres == old(self).xres,
            final(self).yres == old(self).yres,
            final(self).rect == old(self).rect,
            final(self).tiles == old(self).tiles,
            final(self).wf(),
    {
        let cols = (self.rect.size.width as usize + 15) / 16;
        let rows = (self.rect.size.height as usize + 15) / 16;
        if self.tile_col as usize + 1 < cols {
            self.tile_col = self.tile_col + 1;
            self.phase = DecodePhase::AwaitTileMask;
            DecodeAction::Carry
        } else if self.tile_row as usize + 1 < rows {
            self.tile_col = 0;
            self.tile_row = self.tile_row + 1;
            self.phase = DecodePhase::AwaitTileMask;
            DecodeAction::Carry
        } else {
            self.finish_rect()
        }
    }

    /// Consume exactly the bytes the current phase asked for and step the
    /// decoder, writing any decoded pixels into the screen image. The
    /// contract below states, phase by phase, the new state, the answer,
    /// and precisely which screen bytes changed and to what; in particular
    /// every write stays inside the image, whatever the server sent.
    #[verifier::rlimit(100)]
    #[verifier::spinoff_prover]
    pub fn advance(&mut self, input: &[u8], screen: &mut Screen) -> (r: Result<
        DecodeAction,
        RfbSessionError,
    >)
        requires
            old(self).wf(),
            old(screen).wf(),
            old(screen).xres == old(self).xres as usize,
            old(screen).yres == old(self).yres as usize,
            input@.len() == old(self).needed_spec(),
        ensures
            final(self).wf(),
            final(self).pf == old(self).pf,
            final(self).same_format == old(self).same_format,
            final(self).xres == old(self).xres,
            final(self).yres == old(self).yres,
            final(screen).wf(),
            old(screen).same_geometry(*final(screen)),
            final(screen).image@.len() == old(screen).image@.len(),
            r is Err ==> *final(self) == *old(self) && final(screen).image@ == old(screen).image@,
            match old(self).phase {
                DecodePhase::AwaitCommand => {
                    let cmd = crate::wire::be16_value(input@[0], input@[1]);
                    &&& final(screen).image@ == old(screen).image@
                    &&& (cmd == 0 ==> r == Ok::<DecodeAction, RfbSessionError>(DecodeAction::Carry)
                        && final(self).phase is AwaitRectCount)
                    &&& (cmd != 0 ==> (r matches Err(e) && e.0 matches
                        RfbSessionErrorKind::InvalidServerCommand(c) && c == cmd))
                },
                DecodePhase::AwaitRectCount => {
                    let cnt = crate::wire::be16_value(input@[0], input@[1]);
                    &&& final(screen).image@ == old(screen).image@
                    &&& (cnt == 0 ==> r == Ok::<DecodeAction, RfbSessionError>(
                        DecodeAction::FrameComplete) && final(self).phase is AwaitCommand)
                    &&& (cnt != 0 ==> r == Ok::<DecodeAction, RfbSessionError>(DecodeAction::Carry)
                        && final(self).phase is AwaitRectHeader && final(self).rects_left == cnt)
                },
                DecodePhase::AwaitRectHeader => {
                    let x = crate::wire::be16_value(input@[0], input@[1]);
                    let y = crate::wire::be16_value(input@[2], input@[3]);
                    let w = crate::wire::be16_value(input@[4], input@[5]);
                    let h = crate::wire::be16_value(input@[6], input@[7]);
                    let enc = crate::wire::be32_value(input@[8], input@[9], input@[10],
                        input@[11]) as i32;
                    &&& final(screen).image@ == old(screen).image@
                    &&& (enc != 0 && enc != 5 ==> (r matches Err(e) && e.0 matches
                        RfbSessionErrorKind::InvalidEncoding(c) && c == enc))
                    &&& ((enc == 0 || enc == 5) && (x + w > old(self).xres || y + h > old(
                        self,
                    ).yres) ==> (r matches Err(e) && e.0 is RectangleOutOfBounds))
                    &&& ((enc == 0 || enc == 5) && x + w <= old(self).xres && y + h <= old(
                        self,
                    ).yres ==> final(self).rect == (crate::rfb_messages::Rect {
                        location: crate::rfb_messages::Point { x, y },
                        size: crate::rfb_messages::Size { width: w, height: h },
                    }) && (if enc == 0 {
                        r == Ok::<DecodeAction, RfbSessionError>(DecodeAction::Carry)
                            && final(self).phase is AwaitRawPixels
                            && final(self).rects_left == old(self).rects_left
                    } else if w > 0 && h > 0 {
                        &&& r == Ok::<DecodeAction, RfbSessionError>(DecodeAction::Carry)
                        &&& final(self).rects_left == old(self).rects_left
                        &&& final(self).phase is AwaitTileMask
                        &&& final(self).tile_col == 0
                        &&& final(self).tile_row == 0
                        &&& final(self).tiles.foreground@ == 0
                        &&& final(self).tiles.background@ == 0
                    } else {
                        r matches Ok(a) && (final(self).rects_left as int, final(self).phase, a)
                            == spec_finish_rect_counters(old(self).rects_left as int)
                    }))
                },
                DecodePhase::AwaitRawPixels => {
                    let x0 = old(self).rect.location.x as int;
                    let y0 = old(self).rect.location.y as int;
                    let w = old(self).rect.size.width as int;
                    let h = old(self).rect.size.height as int;
                    let stride = old(screen).line_length as int;
                    &&& r matches Ok(a)
                    &&& ((final(self).rects_left as int, final(self).phase, a)
                        == spec_finish_rect_counters(old(self).rects_left as int))
                    &&& final(self).rect == old(self).rect
                    &&& final(self).tiles == old(self).tiles
                    &&& forall|x: int, y: int|
                        x0 <= x < x0 + w && y0 <= y < y0 + h ==> pixel_at(
                            final(screen).image@,
                            stride,
                            x,
                            y,
                        ) == translated_pixel(old(self).pf, input@, (y - y0) * w + (x - x0))
                    &&& forall|i: int|
                        0 <= i < final(screen).image@.len() && !covered(
                            stride,
                            old(screen).xres as int,
                            old(screen).yres as int,
                            x0,
                            y0,
                            w,
                            h,
                            i,
                        ) ==> final(screen).image@[i] == old(screen).image@[i]
                },
                DecodePhase::AwaitTileMask => {
                    let mask = input@[0];
                    &&& final(screen).image@ == old(screen).image@
                    &&& r == Ok::<DecodeAction, RfbSessionError>(DecodeAction::Carry)
                    &&& final(self).rect == old(self).rect
                    &&& final(self).tiles == old(self).tiles
                    &&& final(self).tile_col == old(self).tile_col
                    &&& final(self).tile_row == old(self).tile_row
                    &&& final(self).rects_left == old(self).rects_left
                    &&& (mask & 1 != 0 ==> final(self).phase is AwaitTileRawPixels)
                    &&& (mask & 1 == 0 ==> (final(self).phase matches
                        DecodePhase::AwaitTileParams { mask: m } && m == mask))
                },
                DecodePhase::AwaitTileRawPixels => {
                    let x0 = old(self).tile_x0();
                    let y0 = old(self).tile_y0();
                    let w = old(self).tile_w();
                    let h = old(self).tile_h();
                    let stride = old(screen).line_length as int;
                    &&& r matches Ok(a)
                    &&& ((
                        final(self).tile_col as int,
                        final(self).tile_row as int,
                        final(self).rects_left as int,
                        final(self).phase,
                        a,
                    ) == spec_finish_tile_counters(
                        old(self).tile_col as int,
                        old(self).tile_row as int,
                        old(self).rect.size.width as int,
                        old(self).rect.size.height as int,
                        old(self).rects_left as int,
                    ))
                    &&& final(self).rect == old(self).rect
                    &&& final(self).tiles == old(self).tiles
                    &&& forall|x: int, y: int|
                        x0 <= x < x0 + w && y0 <= y < y0 + h ==> pixel_at(
                            final(screen).image@,
                            stride,
                            x,
                            y,
                        ) == translated_pixel(old(self).pf, input@, (y - y0) * w + (x - x0))
                    &&& forall|i: int|
                        0 <= i < final(screen).image@.len() && !covered(
                            stride,
                            old(screen).xres as int,
                            old(screen).yres as int,
                            x0,
                            y0,
                            w,
                            h,
                            i,
                        ) ==> final(screen).image@[i] == old(screen).image@[i]
                },
                DecodePhase::AwaitTileParams { mask } => {
                    let new_bg = params_bg(old(self).pf, mask, input@, old(
                        self,
                    ).tiles.background@);
                    let new_fg = params_fg(old(self).pf, mask, input@, old(
                        self,
                    ).tiles.foreground@);
                    let cnt = params_count(old(self).pf, mask, input@);
                    let x0 = old(self).tile_x0();
                    let y0 = old(self).tile_y0();
                    let w = old(self).tile_w();
                    let h = old(self).tile_h();
                    let stride = old(screen).line_length as int;
                    &&& r matches Ok(a)
                    &&& final(self).tiles.background@ == new_bg
                    &&& final(self).tiles.foreground@ == new_fg
                    &&& final(self).rect == old(self).rect
                    &&& forall|x: int, y: int|
                        x0 <= x < x0 + w && y0 <= y < y0 + h && 0 <= x < old(screen).xres && 0 <= y
                            < old(screen).yres ==> pixel_at(final(screen).image@, stride, x, y)
                            == new_bg
                    &&& forall|i: int|
                        0 <= i < final(screen).image@.len() && !covered(
                            stride,
                            old(screen).xres as int,
                            old(screen).yres as int,
                            x0,
                            y0,
                            w,
                            h,
                            i,
                        ) ==> final(screen).image@[i] == old(screen).image@[i]
                    &&& (cnt != 0 ==> r == Ok::<DecodeAction, RfbSessionError>(DecodeAction::Carry)
                        && (final(self).phase matches DecodePhase::AwaitTileSubrects {
                        remaining,
                        colored,
                    } && remaining == cnt && colored == (mask & 16 != 0))
                        && final(self).tile_col == old(self).tile_col
                        && final(self).tile_row == old(self).tile_row
                        && final(self).rects_left == old(self).rects_left)
                    &&& (cnt == 0 ==> ((
                        final(self).tile_col as int,
                        final(self).tile_row as int,
                        final(self).rects_left as int,
                        final(self).phase,
                        a,
                    ) == spec_finish_tile_counters(
                        old(self).tile_col as int,
                        old(self).tile_row as int,
                        old(self).rect.size.width as int,
                        old(self).rect.size.height as int,
                        old(self).rects_left as int,
                    )))
                },
                DecodePhase::AwaitTileSubrects { remaining, colored } => {
                    let base = if colored {
                        old(self).pf.bytes_per_pixel_spec() as int
                    } else {
                        0
                    };
                    let xy = input@[base];
                    let wh = input@[base + 1];
                    let v = if colored {
                        spec_translate(old(self).pf, input@)
                    } else {
                        old(self).tiles.foreground@
                    };
                    let ox = old(self).tile_x0() + sub_x(xy);
                    let oy = old(self).tile_y0() + sub_y(xy);
                    let stride = old(screen).line_length as int;
                    &&& r matches Ok(a)
                    &&& final(self).tiles == old(self).tiles
                    &&& final(self).rect == old(self).rect
                    &&& forall|x: int, y: int|
                        ox <= x < ox + sub_w(wh) && oy <= y < oy + sub_h(wh) && 0 <= x < old(
                            screen,
                        ).xres && 0 <= y < old(screen).yres ==> pixel_at(
                            final(screen).image@,
                            stride,
                            x,
                            y,
                        ) == v
                    &&& forall|i: int|
                        0 <= i < final(screen).image@.len() && !covered(
                            stride,
                            old(screen).xres as int,
                            old(screen).yres as int,
                            ox,
                            oy,
                            sub_w(wh),
                            sub_h(wh),
                            i,
                        ) ==> final(screen).image@[i] == old(screen).image@[i]
                    &&& (remaining > 1 ==> r == Ok::<DecodeAction, RfbSessionError>(
                        DecodeAction::Carry) && (final(self).phase matches
                        DecodePhase::AwaitTileSubrects { remaining: rem2, colored: c2 } && rem2
                        == remaining - 1 && c2 == colored)
                        && final(self).tile_col == old(self).tile_col
                        && final(self).tile_row == old(self).tile_row
                        && final(self).rects_left == old(self).rects_left)
                    &&& (remaining == 1 ==> ((
                        final(self).tile_col as int,
                        final(self).tile_row as int,
                        final(self).rects_left as int,
                        final(self).phase,
                        a,
                    ) == spec_finish_tile_counters(
                        old(self).tile_col as int,
                        old(self).tile_row as int,
                        old(self).rect.size.width as int,
                        old(self).rect.size.height as int,
                        old(self).rects_left as int,
                    )))
                },
            },
    {
        match self.phase {
            DecodePhase::AwaitCommand => {
                let cmd = crate::wire::read_u16_be(input, 0);
                match crate::rfb_messages::FromServerCommands::new(cmd) {
                    Ok(_) => {
                        self.phase = DecodePhase::AwaitRectCount;
                        Ok(DecodeAction::Carry)
                    },
                    Err(e) => Err(e),
                }
            },
            DecodePhase::AwaitRectCount => {
                let cnt = crate::wire::read_u16_be(input, 0);
                if cnt == 0 {
                    self.phase = DecodePhase::AwaitCommand;
                    Ok(DecodeAction::FrameComplete)
                } else {
                    self.rects_left = cnt;
                    self.phase = DecodePhase::AwaitRectHeader;
                    Ok(DecodeAction::Carry)
                }
            },
            DecodePhase::AwaitRectHeader => {
                let x = crate::wire::read_u16_be(input, 0);
                let y = crate::wire::read_u16_be(input, 2);
                let w = crate::wire::read_u16_be(input, 4);
                let h = crate::wire::read_u16_be(input, 6);
                let enc = #[verifier::truncate] (crate::wire::read_u32_be(input, 8) as i32);
                let et = match crate::rfb_messages::RfbEncodingType::new(enc) {
                    Ok(t) => t,
                    Err(e) => {
                        return Err(e);
                    },
                };
                if (x as usize) + (w as usize) > self.xres as usize || (y as usize) + (h as usize)
                    > self.yres as usize {
                    return Err(crate::errors::RfbSessionError(
                        RfbSessionErrorKind::RectangleOutOfBounds,
                    ));
                }
                self.rect = crate::rfb_messages::Rect {
                    location: crate::rfb_messages::Point { x, y },
                    size: crate::rfb_messages::Size { width: w, height: h },
                };
                match et {
                    crate::rfb_messages::RfbEncodingType::Raw => {
                        self.phase = DecodePhase::AwaitRawPixels;
                        Ok(DecodeAction::Carry)
                    },
                    crate::rfb_messages::RfbEncodingType::HexTile => {
                        if w > 0 && h > 0 {
                            self.tiles = HexTileDecoder::new();
                            self.tile_col = 0;
                            self.tile_row = 0;
                            self.phase = DecodePhase::AwaitTileMask;
                            Ok(DecodeAction::Carry)
                        } else {
                            Ok(self.finish_rect())
                        }
                    },
                }
            },
            DecodePhase::AwaitRawPixels => {
                let x0 = self.rect.location.x as usize;
                let y0 = self.rect.location.y as usize;
                let w = self.rect.size.width as usize;
                let h = self.rect.size.height as usize;
                blit_raw_pixels(screen, x0, y0, w, h, &self.pf, self.same_format, input);
                Ok(self.finish_rect())
            },
            DecodePhase::AwaitTileMask => {
                let mask = input[0];
                if mask & 1 != 0 {
                    self.phase = DecodePhase::AwaitTileRawPixels;
                } else {
                    self.phase = DecodePhase::AwaitTileParams { mask };
                }
                Ok(DecodeAction::Carry)
            },
            DecodePhase::AwaitTileRawPixels => {
                let tx = self.rect.location.x as usize + 16 * (self.tile_col as usize);
                let ty = self.rect.location.y as usize + 16 * (self.tile_row as usize);
                let tw = tile_extent_len(self.rect.size.width, self.tile_col);
                let th = tile_extent_len(self.rect.size.height, self.tile_row);
                proof {
                    lemma_tile_cell_in_run(self.rect.size.width as int, self.tile_col as int);
                    lemma_tile_cell_in_run(self.rect.size.height as int, self.tile_row as int);
                }
                blit_raw_pixels(screen, tx, ty, tw, th, &self.pf, self.same_format, input);
                Ok(self.finish_tile())
            },
            DecodePhase::AwaitTileParams { mask } => {
                let bpsp = self.pf.bytes_per_pixel();
                let mut pos: usize = 0;
                if mask & 2 != 0 {
                    let bg = to_device_pixel(&self.pf, self.same_format, input, 0);
                    self.tiles.background = bg;
                    pos = bpsp;
                    proof {
                        assert(input@.skip(0) =~= input@);
                    }
                }
                if mask & 4 != 0 {
                    let fg = to_device_pixel(&self.pf, self.same_format, input, pos);
                    self.tiles.foreground = fg;
                    pos = pos + bpsp;
                }
                let tx = self.rect.location.x as usize + 16 * (self.tile_col as usize);
                let ty = self.rect.location.y as usize + 16 * (self.tile_row as usize);
                let tw = tile_extent_len(self.rect.size.width, self.tile_col);
                let th = tile_extent_len(self.rect.size.height, self.tile_row);
                screen.fill_rect(tx, ty, tw, th, self.tiles.background);
                let count: u8 = if mask & 8 != 0 {
                    input[pos]
                } else {
                    0
                };
                if count > 0 {
                    self.phase = DecodePhase::AwaitTileSubrects {
                        remaining: count,
                        colored: mask & 16 != 0,
                    };
                    Ok(DecodeAction::Carry)
                } else {
                    Ok(self.finish_tile())
                }
            },
            DecodePhase::AwaitTileSubrects { remaining, colored } => {
                let bpsp = self.pf.bytes_per_pixel();
                let base = if colored {
                    bpsp
                } else {
                    0
                };
                let xy = input[base];
                let wh = input[base + 1];
                let v = if colored {
                    proof {
                        assert(input@.skip(0) =~= input@);
                    }
                    to_device_pixel(&self.pf, self.same_format, input, 0)
                } else {
                    self.tiles.foreground
                };
                let sx = (xy >> 4) as usize;
                let sy = (xy & 0x0f) as usize;
                let sw = (wh >> 4) as usize + 1;
                let sh = (wh & 0x0f) as usize + 1;
                let ox = self.rect.location.x as usize + 16 * (self.tile_col as usize) + sx;
                let oy = self.rect.location.y as usize + 16 * (self.tile_row as usize) + sy;
                screen.fill_rect(ox, oy, sw, sh, v);
                if remaining > 1 {
                    self.phase = DecodePhase::AwaitTileSubrects {
                        remaining: remaining - 1,
                        colored,
                    };
                    Ok(DecodeAction::Carry)
                } else {
                    Ok(self.finish_tile())
                }
            },
        }
    }
}

} // verus!
