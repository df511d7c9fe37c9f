//! The two ways of fitting an image to the 4:5 frame: cutting the centre
//! out of it, and centring it on a larger canvas.

use crate::raster::{
    grid_of, grid_pixel, lemma_pixel_index, pixel_from, BackgroundColor, PixelFormat, RasterImage,
    RasterView, Rgba,
};
use crate::ratio::{
    center_offset, centered, crop_dimensions, crop_size, in_frame, is_compliant, lemma_crop_within,
    lemma_pad_covers, pad_dimensions, pad_size, ratio_is_compliant,
};
use vstd::prelude::*;
use vstd::slice::slice_subrange;

verus! {

/// How an image is brought to the frame.
#[derive(Clone, Copy, Debug, PartialEq, Eq, Structural)]
pub enum ConversionMode {
    /// Pixels outside the centred frame are removed.
    Crop,
    /// A border of one colour is added round the image.
    Pad,
}

/// The part of `v` that starts at `(x, y)` and is `width` x `height` large.
pub open spec fn window_view(v: RasterView, x: int, y: int, width: int, height: int) -> RasterView {
    RasterView {
        width: width as nat,
        height: height as nat,
        format: v.format,
        rows: Seq::new(
            height as nat,
            |j: int| Seq::new(width as nat, |i: int| v.rows[j + y][i + x]),
        ),
    }
}

/// The centre crop: a compliant image as it is, any other cut to
/// [`crop_dimensions`] round its centre.
pub open spec fn crop_view(v: RasterView) -> RasterView {
    let w = v.width as int;
    let h = v.height as int;
    if ratio_is_compliant(w, h) {
        v
    } else {
        let (cw, ch) = crop_dimensions(w, h);
        window_view(v, center_offset(w, cw), center_offset(h, ch), cw, ch)
    }
}

/// The pixel at `(x, y)` of a canvas of colour `color` on which `v` lies
/// with its upper left corner at `(x0, y0)`.
pub open spec fn pad_pixel(v: RasterView, color: Rgba, x0: int, y0: int, x: int, y: int) -> Rgba {
    if x0 <= x < x0 + v.width && y0 <= y < y0 + v.height {
        v.rows[y - y0][x - x0]
    } else {
        color
    }
}

/// The padded image: a compliant image as it is, any other drawn over the
/// centre of a canvas of [`pad_dimensions`] that is filled with `fill`. The
/// image replaces the canvas where it lies; nothing is blended.
pub open spec fn pad_view(v: RasterView, fill: BackgroundColor) -> RasterView {
    let w = v.width as int;
    let h = v.height as int;
    if ratio_is_compliant(w, h) {
        v
    } else {
        let (nw, nh) = pad_dimensions(w, h);
        let x0 = center_offset(nw, w);
        let y0 = center_offset(nh, h);
        RasterView {
            width: nw as nat,
            height: nh as nat,
            format: PixelFormat::Rgba,
            rows: Seq::new(
                nh as nat,
                |y: int|
                    Seq::new(
                        nw as nat,
                        |x: int| pad_pixel(v, fill.color(), x0, y0, x, y),
                    ),
            ),
        }
    }
}

/// The padded canvas of `v` can be held in memory: its sides are `u32` and
/// its byte count is no more than `isize::MAX`, the most that one buffer
/// holds. A compliant image needs no canvas.
pub open spec fn pad_fits(v: RasterView) -> bool {
    let w = v.width as int;
    let h = v.height as int;
    let (nw, nh) = pad_dimensions(w, h);
    ratio_is_compliant(w, h) || (nw <= u32::MAX && nh <= u32::MAX && nw * nh * 4 <= isize::MAX)
}

/// What [`transform`] returns.
pub open spec fn transform_view(v: RasterView, mode: ConversionMode, fill: BackgroundColor) -> RasterView {
    match mode {
        ConversionMode::Crop => crop_view(v),
        ConversionMode::Pad => pad_view(v, fill),
    }
}

/// An image whose ratio is already compliant comes back from either mode
/// as it went in: same size, same layout, same pixels.
pub proof fn lemma_compliant_is_unchanged(v: RasterView, mode: ConversionMode, fill: BackgroundColor)
    requires
        ratio_is_compliant(v.width as int, v.height as int),
    ensures
        crop_view(v) == v,
        pad_view(v, fill) == v,
        transform_view(v, mode, fill) == v,
{
}

/// The centre crop is in frame, is no larger than the image on either axis,
/// and shows the image's own pixels from the centred offset on.
pub proof fn lemma_crop_view(v: RasterView)
    requires
        v.wf(),
    ensures
        crop_view(v).wf(),
        crop_view(v).format == v.format,
        in_frame(crop_view(v).width as int, crop_view(v).height as int),
        crop_view(v).width <= v.width,
        crop_view(v).height <= v.height,
        (crop_view(v).width as int, crop_view(v).height as int) == crop_dimensions(
            v.width as int,
            v.height as int,
        ),
        forall|x: int, y: int| #[trigger]
            crop_view(v).contains(x, y) ==> {
                let x0 = center_offset(v.width as int, crop_view(v).width as int);
                let y0 = center_offset(v.height as int, crop_view(v).height as int);
                v.contains(x + x0, y + y0) && crop_view(v).pixel(x, y) == v.pixel(x + x0, y + y0)
            },
{
    let w = v.width as int;
    let h = v.height as int;
    lemma_crop_within(w, h);
    if !ratio_is_compliant(w, h) {
        let (cw, ch) = crop_dimensions(w, h);
        let c = v.format.channel_count();
        assert(cw * ch * c <= w * h * c) by (nonlinear_arith)
            requires
                0 <= cw <= w,
                0 <= ch <= h,
                0 < c,
        ;
    }
}

/// The padded canvas is in frame, is no smaller than the image on either
/// axis, shows the image's own pixels inside the centred window and the fill
/// colour everywhere else. It is a well-formed image where it fits in memory.
pub proof fn lemma_pad_view(v: RasterView, fill: BackgroundColor)
    requires
        v.wf(),
    ensures
        pad_fits(v) ==> pad_view(v, fill).wf(),
        in_frame(pad_view(v, fill).width as int, pad_view(v, fill).height as int),
        pad_view(v, fill).width >= v.width,
        pad_view(v, fill).height >= v.height,
        (pad_view(v, fill).width as int, pad_view(v, fill).height as int) == pad_dimensions(
            v.width as int,
            v.height as int,
        ),
        forall|x: int, y: int| #[trigger]
            pad_view(v, fill).contains(x, y) ==> {
                let x0 = center_offset(pad_view(v, fill).width as int, v.width as int);
                let y0 = center_offset(pad_view(v, fill).height as int, v.height as int);
                pad_view(v, fill).pixel(x, y) == if v.contains(x - x0, y - y0) {
                    v.pixel(x - x0, y - y0)
                } else {
                    fill.color()
                }
            },
{
    let w = v.width as int;
    let h = v.height as int;
    lemma_pad_covers(w, h);
}

/// Cuts the window that starts at `(x, y)` and is `width` x `height` large
/// out of the image. A window that reaches over the right or the lower edge
/// is cut off there.
pub fn crop_window(img: &RasterImage, x: u32, y: u32, width: u32, height: u32) -> (out: RasterImage)
    ensures
        out@.wf(),
        ({
            let x0 = vstd::math::min(x as int, img@.width as int);
            let y0 = vstd::math::min(y as int, img@.height as int);
            out@ == window_view(
                img@,
                x0,
                y0,
                vstd::math::min(width as int, img@.width - x0),
                vstd::math::min(height as int, img@.height - y0),
            )
        }),
{
    let src = img.as_raw();
    let format = img.format();
    let c: usize = format.channels();
    let iw: u32 = img.width();
    let ih: u32 = img.height();
    let x0: u32 = if x < iw {
        x
    } else {
        iw
    };
    let y0: u32 = if y < ih {
        y
    } else {
        ih
    };
    let cw: u32 = if width < iw - x0 {
        width
    } else {
        iw - x0
    };
    let ch: u32 = if height < ih - y0 {
        height
    } else {
        ih - y0
    };
    let ghost target = window_view(img@, x0 as int, y0 as int, cw as int, ch as int);
    let mut data: Vec<u8> = Vec::new();
    if cw == 0 || ch == 0 {
        assert(cw * ch * format.channel_count() == 0) by (nonlinear_arith)
            requires
                cw == 0 || ch == 0,
        ;
        let out = RasterImage::from_parts(cw, ch, format, data);
        assert(out@.rows =~~= target.rows);
        return out;
    }
    proof {
        lemma_pixel_index(0, 0, iw as int, ih as int, c as int);
        assert(iw * c <= iw * ih * c) by (nonlinear_arith)
            requires
                1 <= ih,
                0 <= iw,
                0 < c,
        ;
        assert(cw * c <= iw * c) by (nonlinear_arith)
            requires
                cw <= iw,
                0 < c,
        ;
    }
    let stride: usize = (cw as usize) * c;
    assert(ch * stride <= iw * ih * c) by (nonlinear_arith)
        requires
            stride == cw * c,
            cw <= iw,
            ch <= ih,
            0 < c,
    ;
    data.reserve((ch as usize) * stride);
    let mut row: u32 = 0;
    while row < ch
        invariant
            row <= ch,
            0 < cw,
            x0 + cw <= iw,
            y0 + ch <= ih,
            c == format.channel_count(),
            stride == cw * c,
            src@.len() == iw * ih * c,
            src@.len() <= usize::MAX,
            data@.len() == row * stride,
            forall|i: int, j: int|
                0 <= j < row && 0 <= i < cw ==> #[trigger] grid_pixel(
                    data@,
                    format,
                    cw as int,
                    i,
                    j,
                ) == grid_pixel(src@, format, iw as int, i + x0, j + y0),
        decreases ch - row,
    {
        proof {
            lemma_pixel_index(x0 as int, row + y0, iw as int, ih as int, c as int);
            lemma_pixel_index(x0 + cw - 1, row + y0, iw as int, ih as int, c as int);
        }
        let first: usize = ((y0 + row) as usize) * (iw as usize) + (x0 as usize);
        let start: usize = c * first;
        assert(start + stride <= src@.len()) by (nonlinear_arith)
            requires
                start == c * first,
                stride == cw * c,
                c * (first + cw - 1) + c <= src@.len(),
        ;
        let ghost before = data@;
        data.extend_from_slice(slice_subrange(src.as_slice(), start, start + stride));
        proof {
            assert((row + 1) * stride == row * stride + stride) by (nonlinear_arith);
            assert forall|i: int, j: int| 0 <= j < row + 1 && 0 <= i < cw implies #[trigger] grid_pixel(
                data@,
                format,
                cw as int,
                i,
                j,
            ) == grid_pixel(src@, format, iw as int, i + x0, j + y0) by {
                lemma_pixel_index(i, j, cw as int, row + 1, c as int);
                let q = j * cw + i;
                if j < row {
                    lemma_pixel_index(i, j, cw as int, row as int, c as int);
                    assert(cw * row * c == row * stride) by (nonlinear_arith)
                        requires
                            stride == cw * c,
                    ;
                    assert(data@[c * q] == before[c * q]);
                    assert(data@[c * q + 1] == before[c * q + 1]);
                    assert(data@[c * q + 2] == before[c * q + 2]);
                    if format == PixelFormat::Rgba {
                        assert(data@[c * q + 3] == before[c * q + 3]);
                    }
                    assert(grid_pixel(data@, format, cw as int, i, j) == grid_pixel(
                        before,
                        format,
                        cw as int,
                        i,
                        j,
                    ));
                } else {
                    let k = c * i;
                    assert(c * q == row * stride + k) by (nonlinear_arith)
                        requires
                            q == row * cw + i,
                            stride == cw * c,
                            k == c * i,
                    ;
                    assert(k + c <= stride) by (nonlinear_arith)
                        requires
                            k == c * i,
                            stride == cw * c,
                            0 <= i < cw,
                            0 < c,
                    ;
                    let p = (j + y0) * iw + (i + x0);
                    assert(c * p == start + k) by (nonlinear_arith)
                        requires
                            p == (row + y0) * iw + (i + x0),
                            first == (y0 + row) * iw + x0,
                            start == c * first,
                            k == c * i,
                    ;
                    assert(data@[c * q] == src@[c * p]);
                    assert(data@[c * q + 1] == src@[c * p + 1]);
                    assert(data@[c * q + 2] == src@[c * p + 2]);
                    if format == PixelFormat::Rgba {
                        assert(data@[c * q + 3] == src@[c * p + 3]);
                    }
                }
            }
        }
        row += 1;
    }
    assert(data@.len() == cw * ch * c) by (nonlinear_arith)
        requires
            data@.len() == ch * stride,
            stride == cw * c,
    ;
    let out = RasterImage::from_parts(cw, ch, format, data);
    proof {
        assert forall|j: int, i: int| 0 <= j < ch && 0 <= i < cw implies out@.rows[j][i]
            == target.rows[j][i] by {
            assert(out@.rows[j][i] == grid_pixel(data@, format, cw as int, i, j));
            assert(img@.rows[j + y0][i + x0] == grid_pixel(src@, format, iw as int, i + x0, j + y0));
        }
        assert(out@.rows =~~= target.rows);
    }
    out
}

/// Brings the image to 4:5 by cutting the centre out of it. A compliant
/// image is handed back untouched.
pub fn convert_aspect_ratio_crop(img: RasterImage) -> (out: RasterImage)
    ensures
        out@ == crop_view(img@),
        out@.wf(),
{
    let width: u32 = img.width();
    let height: u32 = img.height();
    if is_compliant(width, height) {
        return img;
    }
    let (crop_width, crop_height) = crop_size(width, height);
    let x: u32 = centered(width, crop_width);
    let y: u32 = centered(height, crop_height);
    crop_window(&img, x, y, crop_width, crop_height)
}

/// `count` pixels of one colour in `Rgba` layout.
spec fn fill_bytes(color: Rgba, count: int) -> Seq<u8> {
    Seq::new((4 * count) as nat, |i: int| color.channel(i % 4))
}

/// The `count` pixels of `data` from pixel number `first` on, in `Rgba`
/// layout.
spec fn rgba_bytes(data: Seq<u8>, format: PixelFormat, first: int, count: int) -> Seq<u8> {
    Seq::new((4 * count) as nat, |i: int| pixel_from(data, format, first + i / 4).channel(i % 4))
}

fn push_fill(out: &mut Vec<u8>, color: Rgba, count: u32)
    requires
        old(out)@.len() + 4 * count <= usize::MAX,
    ensures
        final(out)@ == old(out)@ + fill_bytes(color, count as int),
{
    let mut n: u32 = 0;
    while n < count
        invariant
            n <= count,
            old(out)@.len() + 4 * count <= usize::MAX,
            out@ == old(out)@ + fill_bytes(color, n as int),
        decreases count - n,
    {
        let ghost before = out@;
        out.push(color.red);
        out.push(color.green);
        out.push(color.blue);
        out.push(color.alpha);
        n += 1;
        assert(out@ =~= old(out)@ + fill_bytes(color, n as int));
    }
}

fn push_rgba(out: &mut Vec<u8>, src: &Vec<u8>, format: PixelFormat, first: usize, count: u32)
    requires
        old(out)@.len() + 4 * count <= usize::MAX,
        (first + count) * format.channel_count() <= src@.len(),
    ensures
        final(out)@ == old(out)@ + rgba_bytes(src@, format, first as int, count as int),
{
    let c: usize = format.channels();
    let _len: usize = src.len();
    let mut n: u32 = 0;
    while n < count
        invariant
            n <= count,
            c == format.channel_count(),
            src@.len() <= usize::MAX,
            old(out)@.len() + 4 * count <= usize::MAX,
            (first + count) * c <= src@.len(),
            out@ == old(out)@ + rgba_bytes(src@, format, first as int, n as int),
        decreases count - n,
    {
        assert(c * (first + n) + c <= (first + count) * c && first + n <= c * (first + n))
            by (nonlinear_arith)
            requires
                n < count,
                3 <= c,
        ;
        let at: usize = c * (first + n as usize);
        out.push(src[at]);
        out.push(src[at + 1]);
        out.push(src[at + 2]);
        match format {
            PixelFormat::Rgb => out.push(255),
            PixelFormat::Rgba => out.push(src[at + 3]),
        }
        n += 1;
        assert(out@ =~= old(out)@ + rgba_bytes(src@, format, first as int, n as int));
    }
}

/// Whether the padded canvas of the image can be held in memory.
pub fn can_pad(img: &RasterImage) -> (b: bool)
    ensures
        b == pad_fits(img@),
{
    let width: u32 = img.width();
    let height: u32 = img.height();
    if is_compliant(width, height) {
        return true;
    }
    let (new_width, new_height) = pad_size(width, height);
    if new_width > 0xFFFF_FFFF || new_height > 0xFFFF_FFFF {
        return false;
    }
    assert(new_width * new_height <= 0xFFFF_FFFF * 0xFFFF_FFFF) by (nonlinear_arith)
        requires
            new_width <= 0xFFFF_FFFF,
            new_height <= 0xFFFF_FFFF,
    ;
    let pixels: u128 = (new_width as u128) * (new_height as u128);
    pixels * 4 <= isize::MAX as u128
}

/// Row `y` of a canvas of colour `color`, `width` pixels wide, on which `v`
/// lies with its upper left corner at `(x0, y0)`, in `Rgba` layout.
spec fn canvas_row(v: RasterView, color: Rgba, x0: int, y0: int, width: int, y: int) -> Seq<
    u8,
> {
    Seq::new((4 * width) as nat, |t: int| pad_pixel(v, color, x0, y0, t / 4, y).channel(t % 4))
}

proof fn lemma_canvas_row_across(
    v: RasterView,
    src: Seq<u8>,
    fill: Rgba,
    x: int,
    y: int,
    new_width: int,
    row: int,
    first: int,
)
    requires
        v == grid_of(v.width, v.height, v.format, src),
        0 <= x,
        x + v.width <= new_width,
        y <= row < y + v.height,
        first == (row - y) * v.width,
    ensures
        fill_bytes(fill, x) + rgba_bytes(src, v.format, first, v.width as int) + fill_bytes(
            fill,
            new_width - x - v.width,
        ) == canvas_row(v, fill, x, y, new_width, row),
{
    let w = v.width as int;
    let a = fill_bytes(fill, x);
    let b = rgba_bytes(src, v.format, first, w);
    let z = fill_bytes(fill, new_width - x - w);
    let line = a + b + z;
    let expected = canvas_row(v, fill, x, y, new_width, row);
    assert(a.len() == 4 * x && b.len() == 4 * w && z.len() == 4 * (new_width - x - w));
    assert(line.len() == expected.len());
    assert forall|t: int| 0 <= t < line.len() implies line[t] == expected[t] by {
        let i = t / 4;
        let k = t % 4;
        assert(t == 4 * i + k && 0 <= k < 4);
        assert(expected[t] == pad_pixel(v, fill, x, y, i, row).channel(k));
        if i < x {
            assert(line[t] == a[t]);
            assert(a[t] == fill.channel(k));
        } else if i < x + w {
            let u = t - 4 * x;
            assert(line[t] == b[u]);
            assert(u / 4 == i - x && u % 4 == k);
            assert(b[u] == pixel_from(src, v.format, first + (i - x)).channel(k));
            assert(v.rows[row - y][i - x] == pixel_from(src, v.format, (row - y) * w + (i - x)));
        } else {
            let u = t - 4 * x - 4 * w;
            assert(line[t] == z[u]);
            assert(u % 4 == k);
            assert(z[u] == fill.channel(k));
        }
    }
    assert(line =~= expected);
}

proof fn lemma_canvas_row_beside(v: RasterView, fill: Rgba, x: int, y: int, new_width: int, row: int)
    requires
        0 <= new_width,
        !(y <= row < y + v.height),
    ensures
        fill_bytes(fill, new_width) == canvas_row(v, fill, x, y, new_width, row),
{
    assert(fill_bytes(fill, new_width) =~= canvas_row(v, fill, x, y, new_width, row));
}

fn push_canvas_row(
    data: &mut Vec<u8>,
    img: &RasterImage,
    fill: Rgba,
    x: u32,
    y: u32,
    new_width: u32,
    row: u32,
)
    requires
        old(data)@.len() + 4 * new_width <= usize::MAX,
        x + img@.width <= new_width,
    ensures
        final(data)@ == old(data)@ + canvas_row(
            img@,
            fill,
            x as int,
            y as int,
            new_width as int,
            row as int,
        ),
{
    let width: u32 = img.width();
    let height: u32 = img.height();
    let format = img.format();
    let src = img.as_raw();
    let ghost c = format.channel_count();
    if y <= row && row - y < height {
        let line: u32 = row - y;
        assert((line * width + width) * c <= width * height * c && line * width <= (line * width
            + width) * c) by (nonlinear_arith)
            requires
                0 <= line < height,
                0 <= width,
                3 <= c,
        ;
        let first: usize = (line as usize) * (width as usize);
        push_fill(data, fill, x);
        push_rgba(data, src, format, first, width);
        push_fill(data, fill, new_width - x - width);
        proof {
            lemma_canvas_row_across(
                img@,
                src@,
                fill,
                x as int,
                y as int,
                new_width as int,
                row as int,
                first as int,
            );
            assert(data@ =~= old(data)@ + (fill_bytes(fill, x as int) + rgba_bytes(
                src@,
                format,
                first as int,
                width as int,
            ) + fill_bytes(fill, new_width - x - width)));
        }
    } else {
        push_fill(data, fill, new_width);
        proof {
            lemma_canvas_row_beside(img@, fill, x as int, y as int, new_width as int, row as int);
        }
    }
}

/// Brings the image to 4:5 by centring it on a canvas filled with
/// `bg_color`. A compliant image is handed back untouched; any other comes
/// back in `Rgba` layout.
pub fn convert_aspect_ratio_pad(img: RasterImage, bg_color: BackgroundColor) -> (out: RasterImage)
    requires
        pad_fits(img@),
    ensures
        out@ == pad_view(img@, bg_color),
        out@.wf(),
{
    let width: u32 = img.width();
    let height: u32 = img.height();
    if is_compliant(width, height) {
        return img;
    }
    let (wide, high) = pad_size(width, height);
    let new_width: u32 = wide as u32;
    let new_height: u32 = high as u32;
    let fill = bg_color.to_rgba();
    let x: u32 = centered(new_width, width);
    let y: u32 = centered(new_height, height);
    let ghost target = pad_view(img@, bg_color);
    assert(new_width * new_height <= new_width * new_height * 4) by (nonlinear_arith)
        requires
            0 <= new_width,
            0 <= new_height,
    ;
    let mut data: Vec<u8> = Vec::with_capacity((new_width as usize) * (new_height as usize) * 4);
    let mut row: u32 = 0;
    while row < new_height
        invariant
            row <= new_height,
            x + img@.width <= new_width,
            new_width * new_height * 4 <= usize::MAX,
            data@.len() == 4 * (row * new_width),
            forall|i: int, j: int|
                0 <= j < row && 0 <= i < new_width ==> #[trigger] grid_pixel(
                    data@,
                    PixelFormat::Rgba,
                    new_width as int,
                    i,
                    j,
                ) == pad_pixel(img@, fill, x as int, y as int, i, j),
        decreases new_height - row,
    {
        let ghost before = data@;
        assert(4 * (row * new_width) + 4 * new_width <= new_width * new_height * 4)
            by (nonlinear_arith)
            requires
                row < new_height,
                0 <= new_width,
        ;
        push_canvas_row(&mut data, &img, fill, x, y, new_width, row);
        proof {
            let line = canvas_row(img@, fill, x as int, y as int, new_width as int, row as int);
            assert(4 * ((row + 1) * new_width) == 4 * (row * new_width) + 4 * new_width)
                by (nonlinear_arith);
            assert forall|i: int, j: int| 0 <= j < row + 1 && 0 <= i < new_width implies #[trigger] grid_pixel(
                data@,
                PixelFormat::Rgba,
                new_width as int,
                i,
                j,
            ) == pad_pixel(img@, fill, x as int, y as int, i, j) by {
                let q = j * new_width + i;
                if j < row {
                    lemma_pixel_index(i, j, new_width as int, row as int, 4);
                    assert(4 * q + 4 <= before.len()) by (nonlinear_arith)
                        requires
                            4 * q + 4 <= new_width * row * 4,
                            before.len() == 4 * (row * new_width),
                    ;
                    assert(data@[4 * q] == before[4 * q]);
                    assert(data@[4 * q + 1] == before[4 * q + 1]);
                    assert(data@[4 * q + 2] == before[4 * q + 2]);
                    assert(data@[4 * q + 3] == before[4 * q + 3]);
                    assert(grid_pixel(before, PixelFormat::Rgba, new_width as int, i, j)
                        == pad_pixel(img@, fill, x as int, y as int, i, j));
                } else {
                    assert(data@[4 * q] == line[4 * i]);
                    assert(data@[4 * q + 1] == line[4 * i + 1]);
                    assert(data@[4 * q + 2] == line[4 * i + 2]);
                    assert(data@[4 * q + 3] == line[4 * i + 3]);
                }
            }
        }
        row += 1;
    }
    assert(data@.len() == new_width * new_height * 4) by (nonlinear_arith)
        requires
            data@.len() == 4 * (new_height * new_width),
    ;
    let out = RasterImage::from_parts(new_width, new_height, PixelFormat::Rgba, data);
    proof {
        assert forall|j: int, i: int| 0 <= j < new_height && 0 <= i < new_width implies out@.rows[j][i]
            == target.rows[j][i] by {
            assert(out@.rows[j][i] == grid_pixel(
                data@,
                PixelFormat::Rgba,
                new_width as int,
                i,
                j,
            ));
        }
        assert(out@.rows =~~= target.rows);
    }
    out
}

/// Brings the image to 4:5 in the given mode; `fill` is the border of a
/// padded image and plays no part in a crop.
pub fn transform(img: RasterImage, mode: ConversionMode, fill: BackgroundColor) -> (out: RasterImage)
    requires
        mode == ConversionMode::Pad ==> pad_fits(img@),
    ensures
        out@ == transform_view(img@, mode, fill),
        out@.wf(),
{
    match mode {
        ConversionMode::Crop => convert_aspect_ratio_crop(img),
        ConversionMode::Pad => convert_aspect_ratio_pad(img, fill),
    }
}

} // verus!
