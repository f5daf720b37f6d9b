//! Pictures as rows of RGBA pixels, the colours that fill them, and the
//! three things that are asked of the `image` crate and of `qrcode`.

use vstd::prelude::*;
use crate::text::{chars_of, is_hex_digit, trimmed};

verus! {

/// A colour: red, green, blue, and how opaque it is.
#[derive(Debug, Clone, Copy, PartialEq, Eq)]
pub struct Rgba {
    pub r: u8,
    pub g: u8,
    pub b: u8,
    pub a: u8,
}

/// A picture: `height` rows of `width` pixels, each of four bytes.
#[derive(Debug, Clone, PartialEq, Eq)]
pub struct Canvas {
    pub width: u32,
    pub height: u32,
    pub pixels: Vec<u8>,
}

/// The model of a [`Canvas`].
pub ghost struct CanvasModel {
    pub width: u32,
    pub height: u32,
    pub pixels: Seq<u8>,
}

impl View for Canvas {
    type V = CanvasModel;

    open spec fn view(&self) -> CanvasModel {
        CanvasModel { width: self.width, height: self.height, pixels: self.pixels@ }
    }
}

/// The picture of one colour.
pub open spec fn filled_model(width: u32, height: u32, color: Rgba) -> CanvasModel {
    CanvasModel {
        width,
        height,
        pixels: Seq::new((width * height * 4) as nat, |i: int| channel(color, i)),
    }
}

/// The byte of a colour at place `i` of a pixel.
pub open spec fn channel(color: Rgba, i: int) -> u8 {
    if i % 4 == 0 {
        color.r
    } else if i % 4 == 1 {
        color.g
    } else if i % 4 == 2 {
        color.b
    } else {
        color.a
    }
}

proof fn lemma_product_bound(a: int, b: int)
    by (nonlinear_arith)
    requires
        0 <= a <= 0xffff_ffff,
        0 <= b <= 0xffff_ffff,
    ensures
        0 <= a * b <= 0xffff_fffe_0000_0001,
{
}

/// The bytes that a picture of this size has.
fn byte_count(width: u32, height: u32) -> (out: u128)
    ensures
        out == width * height * 4,
{
    proof {
        lemma_product_bound(width as int, height as int);
    }
    (width as u128) * (height as u128) * 4
}

impl Canvas {
    /// The picture holds exactly the bytes of its pixels, and the bytes of
    /// one row can be counted.
    pub open spec fn wf(&self) -> bool {
        &&& self.pixels@.len() == self.width * self.height * 4
        &&& self.width * 4 <= usize::MAX
    }

    /// Every pixel of the picture has this colour.
    pub open spec fn is_filled(&self, color: Rgba) -> bool {
        &&& self.wf()
        &&& forall|i: int| 0 <= i < self.pixels@.len() ==> self.pixels@[i] == channel(color, i)
    }

    /// The pixel in column `x` of row `y` has this colour.
    pub open spec fn has_pixel(&self, x: int, y: int, color: Rgba) -> bool {
        let at = (y * self.width + x) * 4;
        &&& self.pixels@[at] == color.r
        &&& self.pixels@[at + 1] == color.g
        &&& self.pixels@[at + 2] == color.b
        &&& self.pixels@[at + 3] == color.a
    }

    /// Whether a picture of this size can be held at all: a vector holds
    /// no more bytes than `isize::MAX`, and the bytes of one row have to
    /// be countable even where there is no row.
    pub open spec fn fits(width: u32, height: u32) -> bool {
        width * height * 4 <= isize::MAX && width * 4 <= usize::MAX
    }

    /// Whether a picture of this size can be held at all.
    pub fn size_fits(width: u32, height: u32) -> (out: bool)
        ensures
            out == Self::fits(width, height),
    {
        byte_count(width, height) <= isize::MAX as u128 && (width as u128) * 4 <= usize::MAX as u128
    }

    /// Whether a picture that is `source_width` wide can be scaled to this
    /// size: the result can be held, and so can the picture between, which
    /// has the old width, the new height and sixteen bytes for each pixel.
    pub open spec fn can_scale(source_width: u32, width: u32, height: u32) -> bool {
        Self::fits(width, height) && source_width * height * 16 <= isize::MAX
    }

    /// Whether a picture that is `source_width` wide can be scaled to this size.
    pub fn scales(source_width: u32, width: u32, height: u32) -> (out: bool)
        ensures
            out == Self::can_scale(source_width, width, height),
    {
        proof {
            lemma_product_bound(source_width as int, height as int);
        }
        Self::size_fits(width, height) && (source_width as u128) * (height as u128) * 16
            <= isize::MAX as u128
    }

    /// A picture of one colour.
    pub fn filled(width: u32, height: u32, color: Rgba) -> (out: Self)
        requires
            Self::fits(width, height),
        ensures
            out.width == width,
            out.height == height,
            out.is_filled(color),
            out@ == filled_model(width, height, color),
    {
        let count: usize = byte_count(width, height) as usize;
        let mut pixels: Vec<u8> = Vec::new();
        let mut i: usize = 0;
        while i < count
            invariant
                i <= count,
                i % 4 == 0,
                count % 4 == 0,
                pixels@.len() == i,
                forall|j: int| 0 <= j < i ==> pixels@[j] == channel(color, j),
            decreases count - i,
        {
            pixels.push(color.r);
            pixels.push(color.g);
            pixels.push(color.b);
            pixels.push(color.a);
            i += 4;
        }
        assert(pixels@ =~= filled_model(width, height, color).pixels);
        Canvas { width, height, pixels }
    }

    /// Sets the pixel in column `x` of row `y`.
    pub fn put_pixel(&mut self, x: u32, y: u32, color: Rgba)
        requires
            old(self).wf(),
            x < old(self).width,
            y < old(self).height,
        ensures
            final(self).wf(),
            final(self).width == old(self).width,
            final(self).height == old(self).height,
            final(self).has_pixel(x as int, y as int, color),
            forall|i: int|
                0 <= i < old(self).pixels@.len() && !((y * old(self).width + x) * 4 <= i < (y * old(
                    self,
                ).width + x) * 4 + 4) ==> final(self).pixels@[i] == old(self).pixels@[i],
    {
        proof {
            lemma_product_bound(y as int, self.width as int);
            assert((y * self.width + x) * 4 + 4 <= self.width * self.height * 4) by (nonlinear_arith)
                requires
                    0 <= x < self.width,
                    0 <= y < self.height,
            ;
        }
        let at: u128 = ((y as u128) * (self.width as u128) + (x as u128)) * 4;
        let at: usize = at as usize;
        assert(at + 4 <= self.pixels.len());
        self.pixels.set(at, color.r);
        self.pixels.set(at + 1, color.g);
        self.pixels.set(at + 2, color.b);
        self.pixels.set(at + 3, color.a);
    }
}

/// Black, and opaque.
pub open spec fn black() -> Rgba {
    Rgba { r: 0, g: 0, b: 0, a: 255 }
}

/// The value of a hexadecimal digit.
pub open spec fn hex_value(c: char) -> int {
    if '0' <= c <= '9' {
        c as int - '0' as int
    } else if 'a' <= c <= 'f' {
        c as int - 'a' as int + 10
    } else if 'A' <= c <= 'F' {
        c as int - 'A' as int + 10
    } else {
        0
    }
}

/// The byte that two characters name: two hexadecimal digits, or a plus
/// sign and one hexadecimal digit.
pub open spec fn pair_value(a: char, b: char) -> Option<int> {
    if is_hex_digit(a) && is_hex_digit(b) {
        Some(16 * hex_value(a) + hex_value(b))
    } else if a == '+' && is_hex_digit(b) {
        Some(hex_value(b))
    } else {
        None
    }
}

/// How many number signs stand at the front of a text.
pub open spec fn leading_hashes(s: Seq<char>) -> nat
    decreases s.len(),
{
    if s.len() > 0 && s[0] == '#' {
        1 + leading_hashes(s.drop_first())
    } else {
        0
    }
}

/// The digits of a colour: the text without the white space around it and
/// without the number signs at its front.
pub open spec fn color_digits(input: Seq<char>) -> Seq<char> {
    trimmed(input).skip(leading_hashes(trimmed(input)) as int)
}

/// The colour that a text names: three bytes, or four with the opacity,
/// each byte as a pair of characters. Without the fourth the colour is opaque.
pub open spec fn hex_color(input: Seq<char>) -> Option<Rgba> {
    let d = color_digits(input);
    if d.len() == 6 && pair_value(d[0], d[1]) is Some && pair_value(d[2], d[3]) is Some
        && pair_value(d[4], d[5]) is Some {
        Some(
            Rgba {
                r: pair_value(d[0], d[1])->0 as u8,
                g: pair_value(d[2], d[3])->0 as u8,
                b: pair_value(d[4], d[5])->0 as u8,
                a: 255,
            },
        )
    } else if d.len() == 8 && pair_value(d[0], d[1]) is Some && pair_value(d[2], d[3]) is Some
        && pair_value(d[4], d[5]) is Some && pair_value(d[6], d[7]) is Some {
        Some(
            Rgba {
                r: pair_value(d[0], d[1])->0 as u8,
                g: pair_value(d[2], d[3])->0 as u8,
                b: pair_value(d[4], d[5])->0 as u8,
                a: pair_value(d[6], d[7])->0 as u8,
            },
        )
    } else {
        None
    }
}

fn hex_value_of(c: char) -> (out: Option<u8>)
    ensures
        match out {
            Some(v) => is_hex_digit(c) && v == hex_value(c) && v < 16,
            None => !is_hex_digit(c),
        },
{
    if '0' <= c && c <= '9' {
        Some(((c as u32) - ('0' as u32)) as u8)
    } else if 'a' <= c && c <= 'f' {
        Some(((c as u32) - ('a' as u32) + 10) as u8)
    } else if 'A' <= c && c <= 'F' {
        Some(((c as u32) - ('A' as u32) + 10) as u8)
    } else {
        None
    }
}

fn pair_value_of(a: char, b: char) -> (out: Option<u8>)
    ensures
        match out {
            Some(v) => pair_value(a, b) == Some(v as int),
            None => pair_value(a, b) is None,
        },
{
    let low = match hex_value_of(b) {
        Some(v) => v,
        None => {
            return None;
        },
    };
    match hex_value_of(a) {
        Some(high) => Some(high * 16 + low),
        None => if a == '+' {
            Some(low)
        } else {
            None
        },
    }
}

/// Reads a colour such as `#336699` or `#336699cc`.
pub fn parse_hex_color(input: &str) -> (out: Option<Rgba>)
    ensures
        out == hex_color(input@),
{
    let whole = crate::text::trim(input);
    let v = chars_of(whole.as_str());
    let mut from: usize = 0;
    assert(v@.skip(0) == v@);
    while from < v.len() && v[from] == '#'
        invariant
            from <= v.len(),
            leading_hashes(v@) == from + leading_hashes(v@.skip(from as int)),
        decreases v.len() - from,
    {
        proof {
            assert(v@.skip(from as int).drop_first() == v@.skip(from + 1));
        }
        from += 1;
    }
    let n = v.len() - from;
    if n != 6 && n != 8 {
        return None;
    }
    let r = match pair_value_of(v[from], v[from + 1]) {
        Some(value) => value,
        None => {
            return None;
        },
    };
    let g = match pair_value_of(v[from + 2], v[from + 3]) {
        Some(value) => value,
        None => {
            return None;
        },
    };
    let b = match pair_value_of(v[from + 4], v[from + 5]) {
        Some(value) => value,
        None => {
            return None;
        },
    };
    if n == 6 {
        return Some(Rgba { r, g, b, a: 255 });
    }
    match pair_value_of(v[from + 6], v[from + 7]) {
        Some(a) => Some(Rgba { r, g, b, a }),
        None => None,
    }
}

/// The picture that `image` makes by laying `top` over `bottom` with its
/// upper left corner at (`x`, `y`).
pub uninterp spec fn overlaid(bottom: CanvasModel, top: CanvasModel, x: int, y: int) -> Seq<u8>;

/// Calls `image::imageops::overlay` on two RGBA buffers and hands back the
/// bottom one, which keeps its size.
#[verifier::external_body]
pub(crate) fn overlay(bottom: Canvas, top: &Canvas, x: i64, y: i64) -> (out: Canvas)
    requires
        bottom.wf(),
        top.wf(),
    ensures
        out.wf(),
        out.width == bottom.width,
        out.height == bottom.height,
        out.pixels@ == overlaid(bottom@, top@, x as int, y as int),
{
    let mut under = image::RgbaImage::from_raw(bottom.width, bottom.height, bottom.pixels).unwrap();
    let over = image::RgbaImage::from_raw(top.width, top.height, top.pixels.clone()).unwrap();
    image::imageops::overlay(&mut under, &over, x, y);
    Canvas { width: under.width(), height: under.height(), pixels: under.into_raw() }
}

/// Calls `DynamicImage::resize_exact` with the Lanczos filter of window 3.
/// The result has the size that was asked for. Its pixels are not stated:
/// the filter takes sines, whose last digits the machine decides.
#[verifier::external_body]
pub(crate) fn resize_exact(source: &Canvas, width: u32, height: u32) -> (out: Canvas)
    requires
        source.wf(),
        Canvas::can_scale(source.width, width, height),
    ensures
        out.wf(),
        out.width == width,
        out.height == height,
{
    let raw = image::RgbaImage::from_raw(source.width, source.height, source.pixels.clone()).unwrap();
    let resized = image::DynamicImage::ImageRgba8(raw)
        .resize_exact(width, height, image::imageops::FilterType::Lanczos3)
        .into_rgba8();
    Canvas { width: resized.width(), height: resized.height(), pixels: resized.into_raw() }
}

/// The size that `image` gives a picture of one size when it scales it to
/// fit a box of another and keeps its proportions.
pub uninterp spec fn fitted_size(source_width: u32, source_height: u32, width: u32, height: u32) -> (
    u32,
    u32,
);

/// A length, but 1 at least.
pub open spec fn at_least_one(length: u32) -> u32 {
    if length < 1 {
        1
    } else {
        length
    }
}

/// Calls `DynamicImage::resize` with the Lanczos filter of window 3. The
/// size of the result depends on the two sizes alone; it is no larger
/// than the box, a side of 0 counted as 1, which is what the caller has to
/// have room for. Its pixels are not stated: the filter takes sines, whose
/// last digits the machine decides.
#[verifier::external_body]
pub(crate) fn resize_fit(source: &Canvas, width: u32, height: u32) -> (out: Canvas)
    requires
        source.wf(),
        Canvas::can_scale(source.width, at_least_one(width), at_least_one(height)),
    ensures
        out.wf(),
        (out.width, out.height) == fitted_size(source.width, source.height, width, height),
{
    let raw = image::RgbaImage::from_raw(source.width, source.height, source.pixels.clone()).unwrap();
    let resized = image::DynamicImage::ImageRgba8(raw)
        .resize(width, height, image::imageops::FilterType::Lanczos3)
        .into_rgba8();
    Canvas { width: resized.width(), height: resized.height(), pixels: resized.into_raw() }
}

/// A picture of shades of grey: one byte for each pixel.
#[derive(Debug, Clone, PartialEq, Eq)]
pub struct GreyImage {
    pub width: u32,
    pub height: u32,
    pub shades: Vec<u8>,
}

/// The model of a [`GreyImage`].
pub ghost struct GreyModel {
    pub width: u32,
    pub height: u32,
    pub shades: Seq<u8>,
}

impl View for GreyImage {
    type V = GreyModel;

    open spec fn view(&self) -> GreyModel {
        GreyModel { width: self.width, height: self.height, shades: self.shades@ }
    }
}

/// The picture of the QR code for `data` that fits a square of `size`
/// pixels, as `qrcode` draws it; none where the data make no code.
pub uninterp spec fn qr_picture(data: Seq<u8>, size: u32) -> Option<GreyModel>;

/// Calls `QrCode::new` and renders the code in shades of grey with
/// `max_dimensions(size, size)`. The picture is a square whose side is at
/// most `size`, or at most 185 for a smaller `size`; the caller has to
/// have room for it.
#[verifier::external_body]
pub(crate) fn qr_code(data: &[u8], size: u32) -> (out: Option<GreyImage>)
    requires
        size * size <= isize::MAX,
    ensures
        match out {
            Some(picture) => qr_picture(data@, size) == Some(picture@),
            None => qr_picture(data@, size) is None,
        },
        out matches Some(picture) ==> picture.shades@.len() == picture.width * picture.height,
{
    let code = qrcode::QrCode::new(data).ok()?;
    let picture = code.render::<image::Luma<u8>>().max_dimensions(size, size).build();
    Some(GreyImage { width: picture.width(), height: picture.height(), shades: picture.into_raw() })
}

} // verus!
