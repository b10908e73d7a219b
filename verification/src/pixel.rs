//! Device pixels (RGB-565), the server-advertised pixel format, and how
//! server pixel bytes become device pixels.

use vstd::prelude::*;
use crate::wire::be16_value;

verus! {

/// A packed 16-bit pixel in the display's native RGB-565 layout:
/// bits 15..11 red (5 bits), 10..5 green (6 bits), 4..0 blue (5 bits).
#[derive(Clone, Copy, Debug, PartialEq, Eq, Structural)]
pub struct DevicePixel(u16);

/// The RGB-565 packing of three 8-bit colour channels: the top 5, 6 and 5
/// bits of red, green and blue respectively.
pub open spec fn rgb565(r: u8, g: u8, b: u8) -> u16 {
    (((r as u16) >> 3) << 11) | (((g as u16) >> 2) << 5) | ((b as u16) >> 3)
}

impl View for DevicePixel {
    type V = u16;

    closed spec fn view(&self) -> u16 {
        self.0
    }
}

impl DevicePixel {
    /// Pack three 8-bit colour channels into an RGB-565 device pixel.
    pub fn from_rgb(r: u8, g: u8, b: u8) -> (p: DevicePixel)
        ensures
            p@ == rgb565(r, g, b),
    {
        DevicePixel((((r as u16) >> 3) << 11) | (((g as u16) >> 2) << 5) | ((b as u16) >> 3))
    }

    /// Wrap an already-packed 16-bit value.
    pub fn from_value(v: u16) -> (p: DevicePixel)
        ensures
            p@ == v,
    {
        DevicePixel(v)
    }

    /// The packed 16-bit value.
    pub fn value(&self) -> (v: u16)
        ensures
            v == self@,
    {
        self.0
    }
}

/// The pixel format a server advertises in its ServerInit message.
#[derive(Clone, Copy, Debug, PartialEq, Eq, Structural)]
pub struct PixelFormat {
    pub bits_per_pixel: u8,
    pub depth: u8,
    pub big_endian: bool,
    pub true_color: bool,
    pub red_max: u16,
    pub green_max: u16,
    pub blue_max: u16,
    pub red_shift: u8,
    pub green_shift: u8,
    pub blue_shift: u8,
}

impl PixelFormat {
    /// The server's format matches the device's own 16-bit layout, so server
    /// pixels can be copied as-is (little-endian) into the image buffer.
    pub open spec fn is_same_format_spec(self) -> bool {
        &&& self.bits_per_pixel == 16
        &&& self.depth == 16
        &&& !self.big_endian
        &&& self.red_max == 63 && self.red_shift == 10
        &&& self.green_max == 127 && self.green_shift == 4
        &&& self.blue_max == 63 && self.blue_shift == 0
    }

    /// Formats the decoder can translate: either the device's own 16-bit
    /// layout, or a 32-bit true-colour format whose channel shifts stay
    /// inside a 32-bit value. Anything else is a fatal protocol error.
    pub open spec fn is_supported_spec(self) -> bool {
        ||| self.is_same_format_spec()
        ||| (self.depth == 32 && self.red_shift < 32 && self.green_shift < 32
            && self.blue_shift < 32)
    }

    /// How many bytes one server pixel occupies on the wire.
    pub open spec fn bytes_per_pixel_spec(self) -> nat {
        (self.depth / 8) as nat
    }

    /// Read the 16-byte wire representation of a pixel format:
    /// `bpp(1) depth(1) be(1) tc(1) rmax(2) gmax(2) bmax(2) rsh(1) gsh(1)
    /// bsh(1) pad(3)`, multi-byte fields big-endian.
    pub fn decode(buffer: &[u8]) -> (pf: PixelFormat)
        requires
            buffer@.len() >= 16,
        ensures
            pf == spec_decode_pixel_format(buffer@),
    {
        PixelFormat {
            bits_per_pixel: buffer[0],
            depth: buffer[1],
            big_endian: buffer[2] != 0,
            true_color: buffer[3] != 0,
            red_max: (buffer[4] as u16) * 256 + (buffer[5] as u16),
            green_max: (buffer[6] as u16) * 256 + (buffer[7] as u16),
            blue_max: (buffer[8] as u16) * 256 + (buffer[9] as u16),
            red_shift: buffer[10],
            green_shift: buffer[11],
            blue_shift: buffer[12],
        }
    }

    /// Whether server pixels can be copied as-is (see §ServerInit): 16-bit
    /// little-endian with the device's exact channel layout.
    pub fn is_same_format(&self) -> (r: bool)
        ensures
            r == self.is_same_format_spec(),
    {
        self.bits_per_pixel == 16 && self.depth == 16 && !self.big_endian
            && self.red_max == 63 && self.red_shift == 10
            && self.green_max == 127 && self.green_shift == 4
            && self.blue_max == 63 && self.blue_shift == 0
    }

    /// Whether the decoder can translate this format at all.
    pub fn is_supported(&self) -> (r: bool)
        ensures
            r == self.is_supported_spec(),
    {
        self.is_same_format() || (self.depth == 32 && self.red_shift < 32
            && self.green_shift < 32 && self.blue_shift < 32)
    }

    /// How many bytes one server pixel occupies on the wire.
    pub fn bytes_per_pixel(&self) -> (n: usize)
        ensures
            n == self.bytes_per_pixel_spec(),
    {
        (self.depth / 8) as usize
    }
}

/// The pixel format encoded in the first 16 bytes of `buffer`.
pub open spec fn spec_decode_pixel_format(buffer: Seq<u8>) -> PixelFormat {
    PixelFormat {
        bits_per_pixel: buffer[0],
        depth: buffer[1],
        big_endian: buffer[2] != 0,
        true_color: buffer[3] != 0,
        red_max: be16_value(buffer[4], buffer[5]),
        green_max: be16_value(buffer[6], buffer[7]),
        blue_max: be16_value(buffer[8], buffer[9]),
        red_shift: buffer[10],
        green_shift: buffer[11],
        blue_shift: buffer[12],
    }
}

/// The 24-bit value a 32-bit server pixel carries: bytes 1..3 when the
/// server is big-endian, bytes 2,1,0 otherwise (byte 3 resp. 0 is padding
/// or alpha and is ignored).
pub open spec fn spec_pixel_value_32(pf: PixelFormat, bytes: Seq<u8>) -> u32 {
    if pf.big_endian {
        (bytes[1] * 0x10000 + bytes[2] * 0x100 + bytes[3]) as u32
    } else {
        (bytes[2] * 0x10000 + bytes[1] * 0x100 + bytes[0]) as u32
    }
}

/// One colour channel of `v`: shift down, mask with the channel's maximum,
/// and keep the low 8 bits (as the generic path does).
pub open spec fn spec_channel(v: u32, shift: u8, max: u16) -> u8 {
    ((v >> (shift as u32)) & (max as u32)) as u8
}

/// The device pixel that one server pixel translates to. On the same-format
/// fast path the two bytes are taken as a little-endian 16-bit value;
/// otherwise (32-bit generic path) the three channels are extracted with the
/// format's shifts and maxima and packed as RGB-565.
pub open spec fn spec_translate(pf: PixelFormat, bytes: Seq<u8>) -> u16 {
    if pf.is_same_format_spec() {
        (bytes[0] + bytes[1] * 256) as u16
    } else {
        let v = spec_pixel_value_32(pf, bytes);
        rgb565(
            spec_channel(v, pf.red_shift, pf.red_max),
            spec_channel(v, pf.green_shift, pf.green_max),
            spec_channel(v, pf.blue_shift, pf.blue_max),
        )
    }
}

/// Translate one server pixel (the `pf.bytes_per_pixel_spec()` bytes of
/// `bytes` starting at `at`) into a device pixel. `same_format` caches
/// `pf.is_same_format_spec()`, as the session does.
pub fn to_device_pixel(pf: &PixelFormat, same_format: bool, bytes: &[u8], at: usize) -> (p:
    DevicePixel)
    requires
        pf.is_supported_spec(),
        same_format == pf.is_same_format_spec(),
        at + pf.bytes_per_pixel_spec() <= bytes@.len(),
    ensures
        p@ == spec_translate(*pf, bytes@.skip(at as int)),
{
    let n = bytes.len();
    assert(at + pf.bytes_per_pixel_spec() <= n);
    proof {
        let tail = bytes@.skip(at as int);
        assert(tail.len() >= pf.bytes_per_pixel_spec());
        assert(tail[0] == bytes@[at as int]);
        if !pf.is_same_format_spec() {
            assert(tail[1] == bytes@[at + 1]);
            assert(tail[2] == bytes@[at + 2]);
            assert(tail[3] == bytes@[at + 3]);
        } else {
            assert(tail[1] == bytes@[at + 1]);
        }
    }
    if same_format {
        DevicePixel::from_value((bytes[at] as u16) + (bytes[at + 1] as u16) * 256)
    } else {
        let v: u32 = if pf.big_endian {
            (bytes[at + 1] as u32) * 0x10000 + (bytes[at + 2] as u32) * 0x100 + (bytes[at
                + 3] as u32)
        } else {
            (bytes[at + 2] as u32) * 0x10000 + (bytes[at + 1] as u32) * 0x100 + (bytes[at]
                as u32)
        };
        let r = #[verifier::truncate] (((v >> (pf.red_shift as u32)) & (pf.red_max as u32)) as u8);
        let g = #[verifier::truncate] (((v >> (pf.green_shift as u32)) & (pf.green_max as u32)) as u8);
        let b = #[verifier::truncate] (((v >> (pf.blue_shift as u32)) & (pf.blue_max as u32)) as u8);
        DevicePixel::from_rgb(r, g, b)
    }
}

/// Pixel-format equivalence: one colour, presented to each translation
/// path in its own wire format, comes out as the same device pixel. The
/// fast path gets the colour's RGB-565 value as two little-endian bytes
/// (the device's own 16-bit format); the generic path gets the colour's
/// three 8-bit channels in a little-endian 32-bit true-colour format. Both
/// translate to `rgb565(r, g, b)`. (The two paths never see the same bytes:
/// the fast path exists only for the 16-bit format, the generic one only
/// for 32-bit formats.)
pub proof fn lemma_pixel_path_equivalence(r: u8, g: u8, b: u8)
    ensures
        ({
            let fast_pf = PixelFormat {
                bits_per_pixel: 16,
                depth: 16,
                big_endian: false,
                true_color: true,
                red_max: 63,
                green_max: 127,
                blue_max: 63,
                red_shift: 10,
                green_shift: 4,
                blue_shift: 0,
            };
            let v = rgb565(r, g, b);
            spec_translate(fast_pf, seq![(v & 0xff) as u8, (v >> 8) as u8]) == rgb565(r, g, b)
        }),
        ({
            let generic_pf = PixelFormat {
                bits_per_pixel: 32,
                depth: 32,
                big_endian: false,
                true_color: true,
                red_max: 255,
                green_max: 255,
                blue_max: 255,
                red_shift: 16,
                green_shift: 8,
                blue_shift: 0,
            };
            spec_translate(generic_pf, seq![b, g, r, 0u8]) == rgb565(r, g, b)
        }),
{
    let v = rgb565(r, g, b);
    assert((((v & 0xff) as u8) + (((v >> 8) as u8) * 256)) as u16 == v) by (bit_vector);
    let fast_bytes = seq![(v & 0xff) as u8, (v >> 8) as u8];
    assert(fast_bytes[0] == (v & 0xff) as u8 && fast_bytes[1] == (v >> 8) as u8);
    let generic_bytes = seq![b, g, r, 0u8];
    let generic_pf = PixelFormat {
        bits_per_pixel: 32,
        depth: 32,
        big_endian: false,
        true_color: true,
        red_max: 255,
        green_max: 255,
        blue_max: 255,
        red_shift: 16,
        green_shift: 8,
        blue_shift: 0,
    };
    let w = spec_pixel_value_32(generic_pf, generic_bytes);
    assert(w == (r * 0x10000 + g * 0x100 + b) as u32);
    assert((((r * 0x10000 + g * 0x100 + b) as u32 >> 16u8 as u32) & 255u16 as u32) as u8 == r)
        by (bit_vector);
    assert((((r * 0x10000 + g * 0x100 + b) as u32 >> 8u8 as u32) & 255u16 as u32) as u8 == g)
        by (bit_vector);
    assert((((r * 0x10000 + g * 0x100 + b) as u32 >> 0u8 as u32) & 255u16 as u32) as u8 == b)
        by (bit_vector);
    assert(spec_channel(w, 16, 255) == r);
    assert(spec_channel(w, 8, 255) == g);
    assert(spec_channel(w, 0, 255) == b);
}

} // verus!

