//! Canvas geometry and pixel formats of WZ images, and the conversion of
//! packed pixels into 8-bit RGBA.
use vstd::prelude::*;

use crate::wz::ty::WzInt;

verus! {

/// The `N`-bit field of `v` at bit `shift`, widened to 8 bits by shifting it
/// to the top of the byte.
pub open spec fn spec_bit_pix(n: u32, v: u32, shift: u8) -> u32 {
    ((v >> shift) & (((1u32 << n) - 1) as u32)) << ((8 - n) as u32)
}

proof fn lemma_bit_pix(n: u32, v: u32, shift: u8)
    by (bit_vector)
    requires
        0 < n <= 8,
        shift < 32,
    ensures
        ((v >> shift) & (((1u32 << n) - 1) as u32)) < (1u32 << n),
        (((v >> shift) & (((1u32 << n) - 1) as u32)) as u8) as u32 * ((1u8 << ((8 - n) as u32)) as u32)
            == spec_bit_pix(n, v, shift),
        spec_bit_pix(n, v, shift) < 256,
{
}

/// The `N`-bit channel of `v` at bit `shift`, scaled up to 8 bits.
pub fn bit_pix<const N: u32>(v: u32, shift: u8) -> (r: u8)
    requires
        0 < N <= 8,
        shift < 32,
    ensures
        r as u32 == spec_bit_pix(N, v, shift),
{
    proof {
        lemma_bit_pix(N, v, shift);
    }
    let mask: u32 = (1u32 << N) - 1;
    let m: u8 = 1u8 << (8 - N);
    let x: u32 = (v >> shift) & mask;
    (x as u8) * m
}

/// A BGRA pixel with 4 bits per channel as RGBA bytes.
pub fn bgra4_to_rgba8(v: u16) -> (r: [u8; 4])
    ensures
        r@ == seq![
            spec_bit_pix(4, v as u32, 8) as u8,
            spec_bit_pix(4, v as u32, 4) as u8,
            spec_bit_pix(4, v as u32, 0) as u8,
            spec_bit_pix(4, v as u32, 12) as u8,
        ],
{
    let v = v as u32;
    let b = bit_pix::<4>(v, 0);
    let g = bit_pix::<4>(v, 4);
    let r = bit_pix::<4>(v, 8);
    let a = bit_pix::<4>(v, 12);
    let out = [r, g, b, a];
    assert(out@ =~= seq![r, g, b, a]);
    out
}

/// A BGR pixel with 5, 6 and 5 bits as opaque RGBA bytes.
pub fn bgr565_to_rgba8(v: u16) -> (r: [u8; 4])
    ensures
        r@ == seq![
            spec_bit_pix(5, v as u32, 11) as u8,
            spec_bit_pix(6, v as u32, 5) as u8,
            spec_bit_pix(5, v as u32, 0) as u8,
            0xffu8,
        ],
{
    let v = v as u32;
    let b = bit_pix::<5>(v, 0);
    let g = bit_pix::<6>(v, 5);
    let r = bit_pix::<5>(v, 11);
    let out = [r, g, b, 0xff];
    assert(out@ =~= seq![r, g, b, 0xffu8]);
    out
}

/// A BGRA pixel with 8 bits per channel as RGBA bytes.
pub fn bgra8_to_rgba8(v: u32) -> (r: [u8; 4])
    ensures
        r@ == seq![
            spec_bit_pix(8, v, 16) as u8,
            spec_bit_pix(8, v, 8) as u8,
            spec_bit_pix(8, v, 0) as u8,
            spec_bit_pix(8, v, 24) as u8,
        ],
{
    let b = bit_pix::<8>(v, 0);
    let g = bit_pix::<8>(v, 8);
    let r = bit_pix::<8>(v, 16);
    let a = bit_pix::<8>(v, 24);
    let out = [r, g, b, a];
    assert(out@ =~= seq![r, g, b, a]);
    out
}

/// Canvas scaling: the image is stored at the canvas size divided by
/// `2^value`.
#[derive(Debug, Copy, Clone, PartialEq, Eq)]
pub enum WzCanvasScaling {
    S0,
    S4,
}

impl WzCanvasScaling {
    /// The exponent as stored in the file.
    pub open spec fn spec_value(self) -> u8 {
        match self {
            WzCanvasScaling::S0 => 0,
            WzCanvasScaling::S4 => 4,
        }
    }

    /// The scaling factor.
    pub open spec fn spec_factor(self) -> u32 {
        match self {
            WzCanvasScaling::S0 => 1,
            WzCanvasScaling::S4 => 16,
        }
    }

    /// The exponent as stored in the file.
    pub fn value(&self) -> (r: u8)
        ensures
            r == self.spec_value(),
    {
        match self {
            WzCanvasScaling::S0 => 0,
            WzCanvasScaling::S4 => 4,
        }
    }

    /// The scaling stored as `v`, if it is one.
    pub fn from_value(v: u8) -> (r: Option<Self>)
        ensures
            r matches Some(s) ==> s.spec_value() == v,
            r is None <==> (v != 0 && v != 4),
    {
        if v == 0 {
            Some(WzCanvasScaling::S0)
        } else if v == 4 {
            Some(WzCanvasScaling::S4)
        } else {
            None
        }
    }

    /// Whether the canvas is scaled.
    pub fn is_scaled(&self) -> (r: bool)
        ensures
            r == (self.spec_value() != 0),
    {
        self.value() != 0
    }

    /// The scaling factor, `2^value`.
    pub fn factor(&self) -> (r: u32)
        ensures
            r == self.spec_factor(),
            r as int == vstd::arithmetic::power2::pow2(self.spec_value() as nat),
    {
        proof {
            vstd::arithmetic::power2::lemma2_to64();
        }
        match self {
            WzCanvasScaling::S0 => 1,
            WzCanvasScaling::S4 => 16,
        }
    }

    /// `v` scaled up.
    pub fn scale(&self, v: u32) -> (r: u32)
        requires
            v * self.spec_factor() <= u32::MAX,
        ensures
            r == v * self.spec_factor(),
    {
        v * self.factor()
    }

    /// `v` scaled down, rounding down.
    pub fn unscale(&self, v: u32) -> (r: u32)
        ensures
            r == v / self.spec_factor(),
    {
        v / self.factor()
    }
}

/// Pixel format of a canvas.
#[derive(Debug, Copy, Clone, PartialEq, Eq)]
pub enum WzPixelFormat {
    /// BGRA with 4 bits per channel
    BGRA4,
    /// BGRA with 8 bits per channel
    BGRA8,
    /// BGR with 5 bits for red and blue and 6 bits for green
    BGR565,
    /// DXT3 compression
    DXT3,
    /// DXT5 compression
    DXT5,
}

impl WzPixelFormat {
    /// The format's number as stored in the file.
    pub open spec fn spec_value(self) -> u16 {
        match self {
            WzPixelFormat::BGRA4 => 1,
            WzPixelFormat::BGRA8 => 2,
            WzPixelFormat::BGR565 => 0x201,
            WzPixelFormat::DXT3 => 0x402,
            WzPixelFormat::DXT5 => 0x802,
        }
    }

    /// Bytes per pixel.
    pub open spec fn spec_pixel_size(self) -> usize {
        match self {
            WzPixelFormat::BGRA4 => 2,
            WzPixelFormat::BGRA8 => 4,
            WzPixelFormat::BGR565 => 2,
            WzPixelFormat::DXT3 => 1,
            WzPixelFormat::DXT5 => 1,
        }
    }

    /// The format's number as stored in the file.
    pub fn value(&self) -> (r: u16)
        ensures
            r == self.spec_value(),
    {
        match self {
            WzPixelFormat::BGRA4 => 1,
            WzPixelFormat::BGRA8 => 2,
            WzPixelFormat::BGR565 => 0x201,
            WzPixelFormat::DXT3 => 0x402,
            WzPixelFormat::DXT5 => 0x802,
        }
    }

    /// The format stored as `v`, if it is one.
    pub fn from_value(v: u16) -> (r: Option<Self>)
        ensures
            r matches Some(f) ==> f.spec_value() == v,
            r is None <==> (v != 1 && v != 2 && v != 0x201 && v != 0x402 && v != 0x802),
    {
        if v == 1 {
            Some(WzPixelFormat::BGRA4)
        } else if v == 2 {
            Some(WzPixelFormat::BGRA8)
        } else if v == 0x201 {
            Some(WzPixelFormat::BGR565)
        } else if v == 0x402 {
            Some(WzPixelFormat::DXT3)
        } else if v == 0x802 {
            Some(WzPixelFormat::DXT5)
        } else {
            None
        }
    }

    /// Pixel size in bytes.
    pub fn pixel_size(&self) -> (r: usize)
        ensures
            r == self.spec_pixel_size(),
    {
        match self {
            WzPixelFormat::BGRA4 => 2,
            WzPixelFormat::BGRA8 => 4,
            WzPixelFormat::BGR565 => 2,
            WzPixelFormat::DXT3 => 1,
            WzPixelFormat::DXT5 => 1,
        }
    }
}

/// Each format comes back from its stored number.
pub proof fn lemma_pixel_format_value_roundtrip(f: WzPixelFormat)
    ensures
        f.spec_value() == 1 ==> f == WzPixelFormat::BGRA4,
        f.spec_value() == 2 ==> f == WzPixelFormat::BGRA8,
        f.spec_value() == 0x201 ==> f == WzPixelFormat::BGR565,
        f.spec_value() == 0x402 ==> f == WzPixelFormat::DXT3,
        f.spec_value() == 0x802 ==> f == WzPixelFormat::DXT5,
{
}

/// Whether `fmt` is converted pixel by pixel (the DXT formats are block
/// compressed and are not).
pub open spec fn spec_is_packed(fmt: WzPixelFormat) -> bool {
    fmt is BGRA4 || fmt is BGRA8 || fmt is BGR565
}

/// The little-endian `u16` at unit `i` of `data`.
pub open spec fn spec_le16_at(data: Seq<u8>, i: int) -> u16 {
    (data[2 * i] + 256 * data[2 * i + 1]) as u16
}

/// The little-endian `u32` at unit `i` of `data`.
pub open spec fn spec_le32_at(data: Seq<u8>, i: int) -> u32 {
    (data[4 * i] + 256 * data[4 * i + 1] + 65536 * data[4 * i + 2] + 16777216 * data[4 * i
        + 3]) as u32
}

/// RGBA bytes of the source pixel at unit `i` of `data` in format `fmt`.
pub open spec fn spec_pixel_rgba(data: Seq<u8>, fmt: WzPixelFormat, i: int) -> Seq<u8> {
    match fmt {
        WzPixelFormat::BGRA4 => {
            let v = spec_le16_at(data, i) as u32;
            seq![
                spec_bit_pix(4, v, 8) as u8,
                spec_bit_pix(4, v, 4) as u8,
                spec_bit_pix(4, v, 0) as u8,
                spec_bit_pix(4, v, 12) as u8,
            ]
        },
        WzPixelFormat::BGRA8 => {
            let v = spec_le32_at(data, i);
            seq![
                spec_bit_pix(8, v, 16) as u8,
                spec_bit_pix(8, v, 8) as u8,
                spec_bit_pix(8, v, 0) as u8,
                spec_bit_pix(8, v, 24) as u8,
            ]
        },
        WzPixelFormat::BGR565 => {
            let v = spec_le16_at(data, i) as u32;
            seq![
                spec_bit_pix(5, v, 11) as u8,
                spec_bit_pix(6, v, 5) as u8,
                spec_bit_pix(5, v, 0) as u8,
                0xffu8,
            ]
        },
        _ => Seq::empty(),
    }
}

/// Source units per image row: the canvas width, but the image width for
/// BGR565.
pub open spec fn spec_stride(fmt: WzPixelFormat, w: u32, width: u32) -> int {
    if fmt is BGR565 {
        w as int
    } else {
        width as int
    }
}

/// Whether every pixel of a `w` by `h` image with rows `stride` units apart
/// lies in `data`.
pub open spec fn spec_raw_fits(data: Seq<u8>, fmt: WzPixelFormat, w: u32, h: u32, stride: int) -> bool {
    w == 0 || h == 0 || ((w - 1) + (h - 1) * stride + 1) * fmt.spec_pixel_size() <= data.len()
}

/// The source pixel of `data` in format `fmt` at unit `i`, as RGBA bytes.
fn pixel_rgba(data: &[u8], fmt: WzPixelFormat, i: usize) -> (r: [u8; 4])
    requires
        spec_is_packed(fmt),
        (i + 1) * fmt.spec_pixel_size() <= data@.len(),
    ensures
        r@ == spec_pixel_rgba(data@, fmt, i as int),
{
    let len = data.len();
    assert(len == data@.len());
    match fmt {
        WzPixelFormat::BGRA8 => {
            assert(4 * i + 3 < data@.len()) by (nonlinear_arith)
                requires
                    (i + 1) * fmt.spec_pixel_size() <= data@.len(),
                    fmt.spec_pixel_size() == 4,
            ;
            let v: u32 = data[4 * i] as u32 + data[4 * i + 1] as u32 * 256 + data[4 * i + 2] as u32
                * 65536 + data[4 * i + 3] as u32 * 16777216;
            bgra8_to_rgba8(v)
        },
        WzPixelFormat::BGR565 => {
            assert(2 * i + 1 < data@.len()) by (nonlinear_arith)
                requires
                    (i + 1) * fmt.spec_pixel_size() <= data@.len(),
                    fmt.spec_pixel_size() == 2,
            ;
            let v: u16 = data[2 * i] as u16 + data[2 * i + 1] as u16 * 256;
            bgr565_to_rgba8(v)
        },
        _ => {
            assert(2 * i + 1 < data@.len()) by (nonlinear_arith)
                requires
                    (i + 1) * fmt.spec_pixel_size() <= data@.len(),
                    fmt.spec_pixel_size() == 2,
            ;
            let v: u16 = data[2 * i] as u16 + data[2 * i + 1] as u16 * 256;
            bgra4_to_rgba8(v)
        },
    }
}

/// The `w` by `h` image stored in `data` as RGBA bytes, row by row: pixel
/// `(x, y)` is the source pixel at unit `x + y * stride`, with `stride` the
/// canvas width `width` for BGRA4 and BGRA8 and the image width `w` for
/// BGR565. `None` for the block-compressed DXT formats, when a pixel lies
/// past the data, or when the image's bytes do not fit in memory.
pub fn raw_rgba(data: &[u8], fmt: WzPixelFormat, w: u32, h: u32, width: u32) -> (r: Option<
    Vec<u8>,
>)
    ensures
        r is Some <==> spec_is_packed(fmt) && spec_raw_fits(
            data@,
            fmt,
            w,
            h,
            spec_stride(fmt, w, width),
        ) && 4 * w * h <= usize::MAX,
        r matches Some(v) ==> {
            &&& v@.len() == 4 * w * h
            &&& forall|x: int, y: int, c: int|
                0 <= x < w && 0 <= y < h && 0 <= c < 4 ==> #[trigger] v@[4 * (x + y * w) + c]
                    == spec_pixel_rgba(data@, fmt, x + y * spec_stride(fmt, w, width))[c]
        },
{
    match fmt {
        WzPixelFormat::DXT3 | WzPixelFormat::DXT5 => {
            return None;
        },
        _ => {},
    }
    let ghost stride_s = spec_stride(fmt, w, width);
    let stride: u32 = match fmt {
        WzPixelFormat::BGR565 => w,
        _ => width,
    };
    let ps = fmt.pixel_size();
    assert(w * h <= 0xffff_ffff_ffff_ffff_ffff_ffff) by (nonlinear_arith)
        requires
            w <= u32::MAX,
            h <= u32::MAX,
    ;
    let n: u128 = w as u128 * h as u128;
    assert(n * 4 == 4 * w * h) by (nonlinear_arith)
        requires
            n == w * h,
    ;
    if n * 4 > usize::MAX as u128 {
        return None;
    }
    if w > 0 && h > 0 {
        assert((h - 1) * stride <= 0xffff_ffff_ffff_ffff) by (nonlinear_arith)
            requires
                h <= u32::MAX,
                stride <= u32::MAX,
                h >= 1,
        ;
        let last: u128 = (w as u128 - 1) + (h as u128 - 1) * stride as u128;
        assert((last + 1) * ps <= 0x10_0000_0000_0000_0000) by (nonlinear_arith)
            requires
                last <= 0xffff_ffff + 0xffff_ffff_ffff_ffff,
                ps <= 4,
        ;
        if (last + 1) * ps as u128 > data.len() as u128 {
            return None;
        }
    }
    let n = n as usize;
    let data_len = data.len();
    let mut out: Vec<u8> = Vec::new();
    let mut k: usize = 0;
    while k < n
        invariant
            spec_is_packed(fmt),
            data_len == data@.len(),
            stride as int == stride_s,
            ps == fmt.spec_pixel_size(),
            n == w * h,
            4 * n <= usize::MAX,
            spec_raw_fits(data@, fmt, w, h, stride_s),
            k <= n,
            out@.len() == 4 * k,
            forall|j: int, c: int|
                0 <= j < k && 0 <= c < 4 ==> #[trigger] out@[4 * j + c] == spec_pixel_rgba(
                    data@,
                    fmt,
                    j % (w as int) + (j / (w as int)) * stride_s,
                )[c],
        decreases n - k,
    {
        proof {
            assert(w > 0 && h > 0) by (nonlinear_arith)
                requires
                    k < n,
                    n == w * h,
            ;
        }
        let x = k % (w as usize);
        let y = k / (w as usize);
        proof {
            assert(y < h) by (nonlinear_arith)
                requires
                    k < w * h,
                    w > 0,
                    y as int == (k as int) / (w as int),
            ;
            assert(x + y * stride_s <= (w - 1) + (h - 1) * stride_s) by (nonlinear_arith)
                requires
                    x < w,
                    y < h,
                    stride_s >= 0,
            ;
            assert((x + y * stride_s + 1) * ps <= ((w - 1) + (h - 1) * stride_s + 1) * ps)
                by (nonlinear_arith)
                requires
                    x + y * stride_s <= (w - 1) + (h - 1) * stride_s,
                    ps >= 1,
            ;
            assert(x + y * stride_s < data@.len()) by (nonlinear_arith)
                requires
                    (x + y * stride_s + 1) * ps <= data@.len(),
                    ps >= 1,
                    x + y * stride_s >= 0,
            ;
            assert(y * stride_s <= x + y * stride_s) by (nonlinear_arith)
                requires
                    x >= 0,
            ;
        }
        proof {
            assert(y * (stride as int) == y * stride_s);
        }
        let idx = x + y * (stride as usize);
        let px = pixel_rgba(data, fmt, idx);
        let ghost before = out@;
        out.push(px[0]);
        out.push(px[1]);
        out.push(px[2]);
        out.push(px[3]);
        proof {
            assert forall|j: int, c: int|
                0 <= j < k + 1 && 0 <= c < 4 implies #[trigger] out@[4 * j + c]
                == spec_pixel_rgba(data@, fmt, j % (w as int) + (j / (w as int)) * stride_s)[c] by {
                if j < k {
                    assert(out@[4 * j + c] == before[4 * j + c]);
                } else {
                    assert(out@[4 * j + c] == px@[c]);
                }
            }
        }
        k = k + 1;
    }
    proof {
        assert forall|x: int, y: int, c: int|
            0 <= x < w && 0 <= y < h && 0 <= c < 4 implies #[trigger] out@[4 * (x + y * w) + c]
            == spec_pixel_rgba(data@, fmt, x + y * stride_s)[c] by {
            let j = x + y * w;
            assert(j < w * h) by (nonlinear_arith)
                requires
                    0 <= x < w,
                    0 <= y < h,
                    j == x + y * w,
            ;
            vstd::arithmetic::div_mod::lemma_fundamental_div_mod_converse(j, w as int, y, x);
            assert(4 * (x + y * w) + c == 4 * j + c);
        }
    }
    Some(out)
}

/// Header of a canvas property: the canvas size, the pixel format and
/// scaling of the stored image, and the length of the pixel data behind it.
/// Whether a sub-property follows is kept as its flag byte.
#[derive(Debug, Clone)]
pub struct WzCanvasHeader {
    pub unknown: u8,
    pub has_property: u8,
    pub width: WzInt,
    pub height: WzInt,
    pub pix_fmt: WzPixelFormat,
    pub scale: WzCanvasScaling,
    pub unknown1: u32,
    pub len: u32,
    pub unknown2: u8,
}

impl WzCanvasHeader {
    /// Canvas width: the stored integer taken as unsigned.
    pub open spec fn spec_width(&self) -> u32 {
        self.width.0 as u32
    }

    /// Canvas height: the stored integer taken as unsigned.
    pub open spec fn spec_height(&self) -> u32 {
        self.height.0 as u32
    }

    /// Width of the stored image: the canvas width scaled down.
    pub open spec fn spec_img_width(&self) -> u32 {
        (self.spec_width() / self.scale.spec_factor()) as u32
    }

    /// Height of the stored image: the canvas height scaled down.
    pub open spec fn spec_img_height(&self) -> u32 {
        (self.spec_height() / self.scale.spec_factor()) as u32
    }

    /// Total pixels of the canvas.
    pub fn pixels(&self) -> (r: u32)
        requires
            self.spec_width() * self.spec_height() <= u32::MAX,
        ensures
            r == self.spec_width() * self.spec_height(),
    {
        self.width() * self.height()
    }

    /// Pixels of the stored, unscaled image.
    pub fn img_pixels(&self) -> (r: u32)
        requires
            self.spec_img_width() * self.spec_img_height() <= u32::MAX,
        ensures
            r == self.spec_img_width() * self.spec_img_height(),
    {
        self.img_width() * self.img_height()
    }

    /// Bytes of the stored image: its pixels times the pixel size.
    pub fn img_data_size(&self) -> (r: usize)
        requires
            self.spec_img_width() * self.spec_img_height() <= u32::MAX,
            self.spec_img_width() * self.spec_img_height() * self.pix_fmt.spec_pixel_size()
                <= usize::MAX,
        ensures
            r == self.spec_img_width() * self.spec_img_height() * self.pix_fmt.spec_pixel_size(),
    {
        self.img_pixels() as usize * self.pix_fmt.pixel_size()
    }

    /// Canvas size as `(width, height)`.
    pub fn dim(&self) -> (r: (u32, u32))
        ensures
            r == (self.spec_width(), self.spec_height()),
    {
        (self.width(), self.height())
    }

    /// Size of the stored image, as `(height, width)`.
    pub fn img_dim(&self) -> (r: (u32, u32))
        ensures
            r == (self.spec_img_height(), self.spec_img_width()),
    {
        (self.img_height(), self.img_width())
    }

    /// Canvas height.
    pub fn height(&self) -> (r: u32)
        ensures
            r == self.spec_height(),
    {
        self.height.0 as u32
    }

    /// Canvas width.
    pub fn width(&self) -> (r: u32)
        ensures
            r == self.spec_width(),
    {
        self.width.0 as u32
    }

    /// Height of the stored image.
    pub fn img_height(&self) -> (r: u32)
        ensures
            r == self.spec_img_height(),
    {
        self.scale.unscale(self.height())
    }

    /// Width of the stored image.
    pub fn img_width(&self) -> (r: u32)
        ensures
            r == self.spec_img_width(),
    {
        self.scale.unscale(self.width())
    }

    /// Length of the pixel data: the stored length less its leading byte.
    pub fn data_len(&self) -> (r: usize)
        requires
            self.len >= 1,
        ensures
            r == self.len - 1,
    {
        self.len as usize - 1
    }
}

/// A canvas header together with the file position of its pixel data.
#[derive(Debug, Clone)]
pub struct WzCanvas {
    pub hdr: WzCanvasHeader,
    pub data_pos: u64,
}

impl WzCanvas {
    /// File position of the pixel data.
    pub fn data_offset(&self) -> (r: u64)
        ensures
            r == self.data_pos,
    {
        self.data_pos
    }
}

/// Pixel data of a canvas, borrowed, with its format, scaling and size.
pub struct CanvasBuffer<'a> {
    data: &'a [u8],
    pix_fmt: WzPixelFormat,
    scale: WzCanvasScaling,
    size: (u32, u32),
}

impl<'a> CanvasBuffer<'a> {
    pub closed spec fn spec_data(&self) -> Seq<u8> {
        self.data@
    }

    pub closed spec fn spec_pix_fmt(&self) -> WzPixelFormat {
        self.pix_fmt
    }

    pub closed spec fn spec_scale(&self) -> WzCanvasScaling {
        self.scale
    }

    pub closed spec fn spec_size(&self) -> (u32, u32) {
        self.size
    }

    /// A buffer over `data`.
    pub fn new(
        data: &'a [u8],
        pix_fmt: WzPixelFormat,
        scale: WzCanvasScaling,
        size: (u32, u32),
    ) -> (r: Self)
        ensures
            r.spec_data() == data@,
            r.spec_pix_fmt() == pix_fmt,
            r.spec_scale() == scale,
            r.spec_size() == size,
    {
        CanvasBuffer { data, pix_fmt, scale, size }
    }

    /// Width and height.
    pub fn dim(&self) -> (r: (u32, u32))
        ensures
            r == self.spec_size(),
    {
        self.size
    }

    /// Whether the buffer is scaled.
    pub fn is_scaled(&self) -> (r: bool)
        ensures
            r == (self.spec_scale().spec_value() != 0),
    {
        self.scale.is_scaled()
    }

    /// Width and height scaled up.
    pub fn scaled_dim(&self) -> (r: (u32, u32))
        requires
            self.spec_size().0 * self.spec_scale().spec_factor() <= u32::MAX,
            self.spec_size().1 * self.spec_scale().spec_factor() <= u32::MAX,
        ensures
            r == (
                (self.spec_size().0 * self.spec_scale().spec_factor()) as u32,
                (self.spec_size().1 * self.spec_scale().spec_factor()) as u32,
            ),
    {
        let (w, h) = self.size;
        (self.scale.scale(w), self.scale.scale(h))
    }
}

/// Source of the buffers that decoded canvases are written into.
pub trait CanvasAllocator {
    type Container: std::ops::Deref<Target = u8> + std::ops::DerefMut;

    /// A buffer for a canvas of `size` in the format `pix_fmt`.
    fn alloc_canvas(
        &self,
        size: (u32, u32),
        scale: WzCanvasScaling,
        pix_fmt: WzPixelFormat,
    ) -> Self::Container;
}

/// Decoded canvas: its pixel data with format, scaling and sizes.
pub struct Canvas {
    data: Vec<u8>,
    pix_fmt: WzPixelFormat,
    pub raw_w: u32,
    pub raw_h: u32,
    pub width: u32,
    pub height: u32,
    pub scale: WzCanvasScaling,
}

impl Canvas {
    pub closed spec fn spec_data(&self) -> Seq<u8> {
        self.data@
    }

    pub closed spec fn spec_pix_fmt(&self) -> WzPixelFormat {
        self.pix_fmt
    }

    pub closed spec fn spec_raw_w(&self) -> u32 {
        self.raw_w
    }

    pub closed spec fn spec_raw_h(&self) -> u32 {
        self.raw_h
    }

    pub closed spec fn spec_width(&self) -> u32 {
        self.width
    }

    pub closed spec fn spec_height(&self) -> u32 {
        self.height
    }

    pub closed spec fn spec_scale(&self) -> WzCanvasScaling {
        self.scale
    }

    /// A canvas of `width` by `height` whose stored image is those sizes
    /// scaled down.
    pub fn from_data(
        data: Vec<u8>,
        pix_fmt: WzPixelFormat,
        scale: WzCanvasScaling,
        width: u32,
        height: u32,
    ) -> (r: Self)
        ensures
            r.spec_data() == data@,
            r.spec_pix_fmt() == pix_fmt,
            r.spec_scale() == scale,
            r.spec_width() == width,
            r.spec_height() == height,
            r.spec_raw_w() == width / scale.spec_factor(),
            r.spec_raw_h() == height / scale.spec_factor(),
    {
        Canvas {
            data,
            pix_fmt,
            width,
            height,
            scale,
            raw_w: scale.unscale(width),
            raw_h: scale.unscale(height),
        }
    }

    /// The stored image as RGBA bytes, row by row (see `raw_rgba`).
    pub fn to_raw_rgba_image(&self) -> (r: Option<Vec<u8>>)
        ensures
            r is Some <==> spec_is_packed(self.spec_pix_fmt()) && spec_raw_fits(
                self.spec_data(),
                self.spec_pix_fmt(),
                self.spec_raw_w(),
                self.spec_raw_h(),
                spec_stride(self.spec_pix_fmt(), self.spec_raw_w(), self.spec_width()),
            ) && 4 * self.spec_raw_w() * self.spec_raw_h() <= usize::MAX,
            r matches Some(v) ==> {
                &&& v@.len() == 4 * self.spec_raw_w() * self.spec_raw_h()
                &&& forall|x: int, y: int, c: int|
                    0 <= x < self.spec_raw_w() && 0 <= y < self.spec_raw_h() && 0 <= c < 4
                        ==> #[trigger] v@[4 * (x + y * self.spec_raw_w()) + c] == spec_pixel_rgba(
                        self.spec_data(),
                        self.spec_pix_fmt(),
                        x + y * spec_stride(
                            self.spec_pix_fmt(),
                            self.spec_raw_w(),
                            self.spec_width(),
                        ),
                    )[c]
            },
    {
        raw_rgba(self.data.as_slice(), self.pix_fmt, self.raw_w, self.raw_h, self.width)
    }

    /// Bytes of a `width` by `height` image in the canvas's format.
    pub fn canvas_size(&self) -> (r: u32)
        requires
            self.spec_height() * self.spec_width() * self.spec_pix_fmt().spec_pixel_size()
                <= u32::MAX,
        ensures
            r == self.spec_height() * self.spec_width() * self.spec_pix_fmt().spec_pixel_size(),
    {
        let p = self.pix_fmt.pixel_size() as u32;
        assert(self.height * self.width <= u32::MAX) by (nonlinear_arith)
            requires
                self.height * self.width * p <= u32::MAX,
                p >= 1,
        ;
        self.height * self.width * p
    }
}

} // verus!
