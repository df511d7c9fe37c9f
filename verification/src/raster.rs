//! Raster images: a grid of 8-bit pixels, stored row by row.

use vstd::prelude::*;

verus! {

/// How the bytes of one pixel are laid out.
#[derive(Clone, Copy, Debug, PartialEq, Eq, Structural)]
pub enum PixelFormat {
    /// Red, green, blue.
    Rgb,
    /// Red, green, blue, alpha.
    Rgba,
}

impl PixelFormat {
    /// Bytes per pixel.
    pub open spec fn channel_count(self) -> int {
        match self {
            PixelFormat::Rgb => 3,
            PixelFormat::Rgba => 4,
        }
    }

    pub fn channels(self) -> (n: usize)
        ensures
            n == self.channel_count(),
    {
        match self {
            PixelFormat::Rgb => 3,
            PixelFormat::Rgba => 4,
        }
    }
}

/// One pixel. A pixel of an `Rgb` image has alpha 255.
#[derive(Clone, Copy, Debug, PartialEq, Eq, Structural)]
pub struct Rgba {
    pub red: u8,
    pub green: u8,
    pub blue: u8,
    pub alpha: u8,
}

impl Rgba {
    /// The channel at position `c` of the byte layout.
    pub open spec fn channel(self, c: int) -> u8 {
        if c == 0 {
            self.red
        } else if c == 1 {
            self.green
        } else if c == 2 {
            self.blue
        } else {
            self.alpha
        }
    }

    /// The same colour with the alpha channel discarded, that is, fully
    /// opaque. No blending takes place.
    pub open spec fn opaque(self) -> Rgba {
        Rgba { red: self.red, green: self.green, blue: self.blue, alpha: 255 }
    }
}

/// The fill of a padded border.
#[derive(Clone, Copy, Debug, PartialEq, Eq, Structural)]
pub enum BackgroundColor {
    White,
    Black,
}

impl BackgroundColor {
    /// The fill as a fully opaque colour.
    pub open spec fn color(self) -> Rgba {
        match self {
            BackgroundColor::White => Rgba { red: 255, green: 255, blue: 255, alpha: 255 },
            BackgroundColor::Black => Rgba { red: 0, green: 0, blue: 0, alpha: 255 },
        }
    }

    pub fn to_rgba(&self) -> (c: Rgba)
        ensures
            c == self.color(),
    {
        match self {
            BackgroundColor::White => Rgba { red: 255, green: 255, blue: 255, alpha: 255 },
            BackgroundColor::Black => Rgba { red: 0, green: 0, blue: 0, alpha: 255 },
        }
    }
}

/// The pixel number `index` of a byte buffer in the given layout.
pub open spec fn pixel_from(data: Seq<u8>, format: PixelFormat, index: int) -> Rgba {
    match format {
        PixelFormat::Rgb => Rgba {
            red: data[3 * index],
            green: data[3 * index + 1],
            blue: data[3 * index + 2],
            alpha: 255,
        },
        PixelFormat::Rgba => Rgba {
            red: data[4 * index],
            green: data[4 * index + 1],
            blue: data[4 * index + 2],
            alpha: data[4 * index + 3],
        },
    }
}

/// What an image is: `height` rows of `width` pixels each, top row first.
pub struct RasterView {
    pub width: nat,
    pub height: nat,
    pub format: PixelFormat,
    pub rows: Seq<Seq<Rgba>>,
}

impl RasterView {
    /// The grid has the stated size, an `Rgb` image is opaque throughout, and
    /// the byte buffer can be addressed.
    pub open spec fn wf(self) -> bool {
        &&& self.width <= u32::MAX
        &&& self.height <= u32::MAX
        &&& self.width * self.height * self.format.channel_count() <= usize::MAX
        &&& self.rows.len() == self.height
        &&& forall|y: int| 0 <= y < self.height ==> (#[trigger] self.rows[y]).len() == self.width
        &&& self.format == PixelFormat::Rgb ==> forall|x: int, y: int|
            0 <= y < self.height && 0 <= x < self.width ==> (#[trigger] self.rows[y][x]).alpha
                == 255
    }

    pub open spec fn contains(self, x: int, y: int) -> bool {
        0 <= x < self.width && 0 <= y < self.height
    }

    /// The pixel in column `x` of row `y`.
    pub open spec fn pixel(self, x: int, y: int) -> Rgba {
        self.rows[y][x]
    }

    /// The byte buffer of the image: rows top to bottom, pixels left to
    /// right, channels in layout order.
    pub open spec fn bytes(self) -> Seq<u8> {
        let c = self.format.channel_count();
        Seq::new(
            (self.width * self.height * c) as nat,
            |i: int| self.rows[(i / c) / (self.width as int)][(i / c) % (self.width as int)].channel(i % c),
        )
    }

    /// The image with the alpha channel discarded: same size, `Rgb` layout,
    /// every pixel keeping its red, green and blue.
    pub open spec fn flattened(self) -> RasterView {
        RasterView {
            width: self.width,
            height: self.height,
            format: PixelFormat::Rgb,
            rows: Seq::new(
                self.height,
                |y: int| Seq::new(self.width, |x: int| self.rows[y][x].opaque()),
            ),
        }
    }
}

/// The image that a byte buffer holds: pixel `(x, y)` is number
/// `y * width + x` of the buffer.
pub open spec fn grid_of(width: nat, height: nat, format: PixelFormat, data: Seq<u8>) -> RasterView {
    RasterView {
        width,
        height,
        format,
        rows: Seq::new(
            height,
            |y: int| Seq::new(width, |x: int| pixel_from(data, format, y * width + x)),
        ),
    }
}

/// A buffer of the right length holds a well-formed image, and the image's
/// byte buffer is that buffer again.
pub proof fn lemma_grid_of_bytes(width: nat, height: nat, format: PixelFormat, data: Seq<u8>)
    requires
        width <= u32::MAX,
        height <= u32::MAX,
        data.len() == width * height * format.channel_count(),
        data.len() <= usize::MAX,
    ensures
        grid_of(width, height, format, data).wf(),
        grid_of(width, height, format, data).bytes() == data,
{
    let v = grid_of(width, height, format, data);
    let c = format.channel_count();
    let w = width as int;
    let h = height as int;
    assert(v.wf());
    assert forall|i: int| 0 <= i < data.len() implies v.bytes()[i] == data[i] by {
        let p = i / c;
        assert(0 <= p && c * p + i % c == i && 0 <= i % c < c);
        assert(p < w * h) by (nonlinear_arith)
            requires
                c * p <= i,
                i < w * h * c,
                c > 0,
        ;
        assert(w > 0) by (nonlinear_arith)
            requires
                0 <= p < w * h,
                w >= 0,
        ;
        let y = p / w;
        let x = p % w;
        vstd::arithmetic::div_mod::lemma_fundamental_div_mod(p, w);
        vstd::arithmetic::div_mod::lemma_mod_pos_bound(p, w);
        vstd::arithmetic::div_mod::lemma_div_pos_is_pos(p, w);
        assert(y * w + x == p) by (nonlinear_arith)
            requires
                p == w * y + x,
        ;
        assert(y < h) by (nonlinear_arith)
            requires
                y * w + x == p,
                p < w * h,
                x >= 0,
                w > 0,
        ;
        assert(v.rows[y][x] == pixel_from(data, format, y * w + x));
    }
    assert(v.bytes() =~= data);
}

/// The byte buffer of a well-formed image holds that image.
pub proof fn lemma_bytes_grid_of(v: RasterView)
    requires
        v.wf(),
    ensures
        v.bytes().len() == v.width * v.height * v.format.channel_count(),
        grid_of(v.width, v.height, v.format, v.bytes()) == v,
{
    let c = v.format.channel_count();
    let w = v.width as int;
    let h = v.height as int;
    let data = v.bytes();
    let g = grid_of(v.width, v.height, v.format, data);
    assert forall|y: int, x: int| 0 <= y < h && 0 <= x < w implies g.rows[y][x] == v.rows[y][x] by {
        let p = y * w + x;
        assert(0 <= p && p + 1 <= w * h) by (nonlinear_arith)
            requires
                0 <= y < h,
                0 <= x < w,
                p == y * w + x,
        ;
        assert(c * p + c <= w * h * c) by (nonlinear_arith)
            requires
                p + 1 <= w * h,
                c > 0,
        ;
        vstd::arithmetic::div_mod::lemma_fundamental_div_mod_converse(p, w, y, x);
        assert forall|k: int| 0 <= k < c implies #[trigger] data[c * p + k] == v.rows[y][x].channel(
            k,
        ) by {
            let i = c * p + k;
            assert(i / c == p && i % c == k);
        }
        assert(data[c * p + 0] == v.rows[y][x].channel(0));
        assert(data[c * p + 1] == v.rows[y][x].channel(1));
        assert(data[c * p + 2] == v.rows[y][x].channel(2));
        if v.format == PixelFormat::Rgba {
            assert(data[c * p + 3] == v.rows[y][x].channel(3));
        }
    }
    assert(g.rows =~~= v.rows);
}

/// Flattening keeps the size and every colour, and yields an image that is
/// well formed again.
pub proof fn lemma_flattened(v: RasterView)
    requires
        v.wf(),
    ensures
        v.flattened().wf(),
        forall|x: int, y: int|
            v.contains(x, y) ==> #[trigger] v.flattened().pixel(x, y) == v.pixel(x, y).opaque(),
        v.format == PixelFormat::Rgb ==> v.flattened() == v,
{
    let f = v.flattened();
    assert(f.width * f.height * 3 <= v.width * v.height * v.format.channel_count())
        by (nonlinear_arith)
        requires
            f.width == v.width,
            f.height == v.height,
            3 <= v.format.channel_count(),
    ;
    if v.format == PixelFormat::Rgb {
        assert(f.rows =~~= v.rows);
    }
}

/// Pixel `(x, y)` of a buffer that holds rows of `width` pixels.
pub open spec fn grid_pixel(data: Seq<u8>, format: PixelFormat, width: int, x: int, y: int) -> Rgba {
    pixel_from(data, format, y * width + x)
}

/// The number of a pixel inside a `width` x `height` grid lies inside the
/// buffer, and so do all its `channels` bytes.
pub proof fn lemma_pixel_index(x: int, y: int, width: int, height: int, channels: int)
    requires
        0 <= x < width,
        0 <= y < height,
        0 < channels,
    ensures
        0 <= y * width + x < width * height,
        0 <= channels * (y * width + x),
        channels * (y * width + x) + channels <= width * height * channels,
{
    assert(0 <= y * width + x < width * height) by (nonlinear_arith)
        requires
            0 <= x < width,
            0 <= y < height,
    ;
    let p = y * width + x;
    assert(0 <= channels * p && channels * p + channels <= width * height * channels)
        by (nonlinear_arith)
        requires
            0 <= p,
            p + 1 <= width * height,
            0 < channels,
    ;
}

/// An owned image of 8-bit pixels.
#[derive(Debug, PartialEq, Eq)]
pub struct RasterImage {
    width: u32,
    height: u32,
    format: PixelFormat,
    data: Vec<u8>,
}

impl View for RasterImage {
    type V = RasterView;

    closed spec fn view(&self) -> RasterView {
        grid_of(self.width as nat, self.height as nat, self.format, self.data@)
    }
}

impl Clone for RasterImage {
    fn clone(&self) -> (r: Self)
        ensures
            r@ == self@,
    {
        proof {
            use_type_invariant(self);
        }
        let data = self.data.clone();
        assert(data@ =~= self.data@);
        RasterImage { width: self.width, height: self.height, format: self.format, data }
    }
}

impl RasterImage {
    #[verifier::type_invariant]
    spec fn buffer_matches(&self) -> bool {
        self.data@.len() == self.width * self.height * self.format.channel_count()
    }

    /// Takes a byte buffer as an image, if its length is exactly
    /// `width * height` pixels of the given layout.
    pub fn from_raw(width: u32, height: u32, format: PixelFormat, data: Vec<u8>) -> (r: Option<
        RasterImage,
    >)
        ensures
            r is Some <==> data@.len() == width * height * format.channel_count(),
            r matches Some(img) ==> img@ == grid_of(width as nat, height as nat, format, data@)
                && img@.wf(),
    {
        assert(width * height <= 0xFFFF_FFFF * 0xFFFF_FFFF) by (nonlinear_arith)
            requires
                width <= 0xFFFF_FFFF,
                height <= 0xFFFF_FFFF,
        ;
        let pixels: u128 = (width as u128) * (height as u128);
        let need: u128 = pixels * (format.channels() as u128);
        if data.len() as u128 == need {
            proof {
                lemma_grid_of_bytes(width as nat, height as nat, format, data@);
            }
            Some(RasterImage { width, height, format, data })
        } else {
            None
        }
    }

    /// Takes a byte buffer of the right length as an image.
    pub(crate) fn from_parts(width: u32, height: u32, format: PixelFormat, data: Vec<u8>) -> (img:
        RasterImage)
        requires
            data@.len() == width * height * format.channel_count(),
        ensures
            img@ == grid_of(width as nat, height as nat, format, data@),
            img@.wf(),
    {
        let _len: usize = data.len();
        proof {
            lemma_grid_of_bytes(width as nat, height as nat, format, data@);
        }
        RasterImage { width, height, format, data }
    }

    /// The byte buffer. Every image that exists is well formed.
    pub fn as_raw(&self) -> (data: &Vec<u8>)
        ensures
            self@.wf(),
            data@ == self@.bytes(),
            self@ == grid_of(self@.width, self@.height, self@.format, data@),
    {
        let _len: usize = self.data.len();
        proof {
            use_type_invariant(self);
            lemma_grid_of_bytes(self.width as nat, self.height as nat, self.format, self.data@);
        }
        &self.data
    }

    pub fn width(&self) -> (w: u32)
        ensures
            w == self@.width,
            self@.wf(),
    {
        let _raw = self.as_raw();
        self.width
    }

    pub fn height(&self) -> (h: u32)
        ensures
            h == self@.height,
            self@.wf(),
    {
        let _raw = self.as_raw();
        self.height
    }

    pub fn format(&self) -> (f: PixelFormat)
        ensures
            f == self@.format,
            self@.wf(),
    {
        let _raw = self.as_raw();
        self.format
    }

    /// Gives up the image for its byte buffer.
    pub fn into_raw(self) -> (data: Vec<u8>)
        ensures
            data@ == self@.bytes(),
    {
        let _len: usize = self.data.len();
        proof {
            use_type_invariant(&self);
            lemma_grid_of_bytes(self.width as nat, self.height as nat, self.format, self.data@);
        }
        self.data
    }

    /// The pixel in column `x` of row `y`, if the image has one there.
    pub fn get_pixel(&self, x: u32, y: u32) -> (p: Option<Rgba>)
        ensures
            p is Some <==> self@.contains(x as int, y as int),
            p matches Some(color) ==> color == self@.pixel(x as int, y as int),
    {
        if x >= self.width || y >= self.height {
            return None;
        }
        let c: usize = self.format.channels();
        let _len: usize = self.data.len();
        proof {
            use_type_invariant(self);
            lemma_pixel_index(x as int, y as int, self.width as int, self.height as int, c as int);
        }
        let index: usize = (y as usize) * (self.width as usize) + (x as usize);
        let at: usize = c * index;
        let alpha: u8 = match self.format {
            PixelFormat::Rgb => 255,
            PixelFormat::Rgba => self.data[at + 3],
        };
        Some(Rgba { red: self.data[at], green: self.data[at + 1], blue: self.data[at + 2], alpha })
    }

    /// The image with the alpha channel discarded, not blended: an `Rgb`
    /// image of the same size and colours.
    pub fn to_rgb8(&self) -> (rgb: RasterImage)
        ensures
            rgb@ == self@.flattened(),
            rgb@.wf(),
    {
        let _len: usize = self.data.len();
        proof {
            use_type_invariant(self);
            lemma_grid_of_bytes(self.width as nat, self.height as nat, self.format, self.data@);
            lemma_flattened(self@);
        }
        match self.format {
            PixelFormat::Rgb => self.clone(),
            PixelFormat::Rgba => {
                let ghost w = self.width as int;
                let ghost h = self.height as int;
                let pixels: usize = self.data.len() / 4;
                assert(pixels == w * h);
                let mut out: Vec<u8> = Vec::with_capacity(3 * pixels);
                let mut p: usize = 0;
                while p < pixels
                    invariant
                        p <= pixels,
                        self.data@.len() == 4 * pixels,
                        self.data@.len() <= usize::MAX,
                        out@.len() == 3 * p,
                        forall|i: int|
                            0 <= i < out@.len() ==> #[trigger] out@[i] == self.data@[4 * (i / 3) + i
                                % 3],
                    decreases pixels - p,
                {
                    out.push(self.data[4 * p]);
                    out.push(self.data[4 * p + 1]);
                    out.push(self.data[4 * p + 2]);
                    p += 1;
                }
                assert(out@.len() == w * h * 3);
                let rgb = RasterImage::from_parts(self.width, self.height, PixelFormat::Rgb, out);
                proof {
                    let f = self@.flattened();
                    assert forall|y: int, x: int| 0 <= y < h && 0 <= x < w implies rgb@.rows[y][x]
                        == f.rows[y][x] by {
                        lemma_pixel_index(x, y, w, h, 3);
                        let q = y * w + x;
                        assert(out@[3 * q] == self.data@[4 * q]);
                        assert(out@[3 * q + 1] == self.data@[4 * q + 1]);
                        assert(out@[3 * q + 2] == self.data@[4 * q + 2]);
                    }
                    assert(rgb@.rows =~~= f.rows);
                }
                rgb
            },
        }
    }
}

} // verus!
