use aspect45::raster::{BackgroundColor, PixelFormat, RasterImage, Rgba};
use aspect45::transform::{
    can_pad, convert_aspect_ratio_crop, convert_aspect_ratio_pad, crop_window, transform,
    ConversionMode,
};

/// An image whose every byte differs from its neighbours.
fn pattern(width: u32, height: u32, format: PixelFormat) -> RasterImage {
    let count: usize = width as usize * height as usize * format.channels();
    let mut data: Vec<u8> = Vec::with_capacity(count);
    let mut state: u32 = 12345;
    let mut i: usize = 0;
    while i < count {
        state = state.wrapping_mul(1103515245).wrapping_add(12345);
        data.push((state >> 16) as u8);
        i += 1;
    }
    RasterImage::from_raw(width, height, format, data).unwrap()
}

fn opaque_pattern(width: u32, height: u32) -> RasterImage {
    let mut data: Vec<u8> = pattern(width, height, PixelFormat::Rgba).into_raw();
    let mut i: usize = 3;
    while i < data.len() {
        data[i] = 255;
        i += 4;
    }
    RasterImage::from_raw(width, height, PixelFormat::Rgba, data).unwrap()
}

const BLACK: Rgba = Rgba { red: 0, green: 0, blue: 0, alpha: 255 };
const WHITE: Rgba = Rgba { red: 255, green: 255, blue: 255, alpha: 255 };

#[test]
fn crop_of_compliant_image_is_identity() {
    let img = pattern(8, 10, PixelFormat::Rgb);
    assert_eq!(convert_aspect_ratio_crop(img.clone()), img);
    let img = pattern(800, 1000, PixelFormat::Rgba);
    assert_eq!(convert_aspect_ratio_crop(img.clone()), img);
}

#[test]
fn pad_of_compliant_image_is_identity() {
    let img = pattern(8, 10, PixelFormat::Rgb);
    assert_eq!(convert_aspect_ratio_pad(img.clone(), BackgroundColor::White), img);
    let img = pattern(4, 5, PixelFormat::Rgba);
    assert_eq!(convert_aspect_ratio_pad(img.clone(), BackgroundColor::Black), img);
}

#[test]
fn transform_of_nearly_compliant_image_is_identity() {
    let img = pattern(8005, 10, PixelFormat::Rgb);
    assert_ne!(transform(img.clone(), ConversionMode::Crop, BackgroundColor::White), img);
    let img = pattern(1601, 2000, PixelFormat::Rgb);
    assert_eq!(transform(img.clone(), ConversionMode::Crop, BackgroundColor::White), img);
    assert_eq!(transform(img.clone(), ConversionMode::Pad, BackgroundColor::Black), img);
}

#[test]
fn crop_of_wide_image_keeps_the_centre() {
    let img = pattern(1000, 500, PixelFormat::Rgb);
    let out = convert_aspect_ratio_crop(img.clone());
    assert_eq!((out.width(), out.height()), (400, 500));
    assert_eq!(out.format(), PixelFormat::Rgb);
    assert_eq!(out.get_pixel(0, 0), img.get_pixel(300, 0));
    assert_eq!(out.get_pixel(399, 499), img.get_pixel(699, 499));
    assert_eq!(out.get_pixel(123, 45), img.get_pixel(423, 45));
}

#[test]
fn crop_of_tall_image_keeps_the_centre() {
    let img = pattern(40, 100, PixelFormat::Rgba);
    let out = convert_aspect_ratio_crop(img.clone());
    assert_eq!((out.width(), out.height()), (40, 50));
    assert_eq!(out.format(), PixelFormat::Rgba);
    let mut y: u32 = 0;
    while y < 50 {
        let mut x: u32 = 0;
        while x < 40 {
            assert_eq!(out.get_pixel(x, y), img.get_pixel(x, y + 25));
            x += 1;
        }
        y += 1;
    }
}

#[test]
fn crop_with_odd_excess_starts_at_the_floor_half() {
    let img = pattern(11, 5, PixelFormat::Rgb);
    let out = convert_aspect_ratio_crop(img.clone());
    assert_eq!((out.width(), out.height()), (4, 5));
    assert_eq!(out.get_pixel(0, 0), img.get_pixel(3, 0));
    assert_eq!(out.get_pixel(3, 4), img.get_pixel(6, 4));
}

#[test]
fn crop_agrees_with_the_image_crate() {
    let sizes: [(u32, u32); 6] = [(30, 10), (10, 30), (17, 13), (13, 17), (9, 2), (2, 9)];
    for &(w, h) in sizes.iter() {
        let img = pattern(w, h, PixelFormat::Rgb);
        let out = convert_aspect_ratio_crop(img.clone());
        let x: u32 = (w - out.width()) / 2;
        let y: u32 = (h - out.height()) / 2;
        let theirs = image::DynamicImage::ImageRgb8(
            image::RgbImage::from_raw(w, h, img.into_raw()).unwrap(),
        )
        .crop_imm(x, y, out.width(), out.height())
        .to_rgb8();
        assert_eq!((out.width(), out.height()), theirs.dimensions());
        assert_eq!(out.as_raw(), theirs.as_raw());
    }
}

#[test]
fn crop_of_degenerate_images_does_not_panic() {
    let out = convert_aspect_ratio_crop(pattern(1, 50, PixelFormat::Rgb));
    assert_eq!((out.width(), out.height()), (1, 1));
    let out = convert_aspect_ratio_crop(pattern(50, 1, PixelFormat::Rgba));
    assert_eq!((out.width(), out.height()), (1, 1));
    let out = convert_aspect_ratio_crop(pattern(0, 0, PixelFormat::Rgb));
    assert_eq!((out.width(), out.height()), (0, 0));
    let out = convert_aspect_ratio_crop(pattern(0, 6, PixelFormat::Rgb));
    assert_eq!((out.width(), out.height()), (0, 0));
    let out = convert_aspect_ratio_crop(pattern(6, 0, PixelFormat::Rgb));
    assert_eq!((out.width(), out.height()), (0, 0));
    assert!(out.as_raw().is_empty());
}

#[test]
fn crop_window_cuts_off_at_the_edges() {
    let img = pattern(6, 4, PixelFormat::Rgb);
    let out = crop_window(&img, 4, 1, 10, 2);
    assert_eq!((out.width(), out.height()), (2, 2));
    assert_eq!(out.get_pixel(0, 0), img.get_pixel(4, 1));
    assert_eq!(out.get_pixel(1, 1), img.get_pixel(5, 2));
    let out = crop_window(&img, 9, 9, 3, 3);
    assert_eq!((out.width(), out.height()), (0, 0));
    let out = crop_window(&img, 0, 0, 6, 4);
    assert_eq!(out, img);
}

#[test]
fn crop_window_agrees_with_the_image_crate() {
    let img = pattern(7, 9, PixelFormat::Rgba);
    let theirs_src = image::RgbaImage::from_raw(7, 9, img.as_raw().clone()).unwrap();
    let windows: [(u32, u32, u32, u32); 5] =
        [(0, 0, 7, 9), (1, 2, 3, 4), (5, 5, 9, 9), (7, 9, 1, 1), (20, 0, 2, 2)];
    for &(x, y, w, h) in windows.iter() {
        let ours = crop_window(&img, x, y, w, h);
        let theirs = image::imageops::crop_imm(&theirs_src, x, y, w, h).to_image();
        assert_eq!((ours.width(), ours.height()), theirs.dimensions());
        assert_eq!(ours.as_raw(), theirs.as_raw());
    }
}

#[test]
fn pad_of_tall_image_adds_bars_left_and_right() {
    let img = pattern(5, 10, PixelFormat::Rgb);
    let out = convert_aspect_ratio_pad(img.clone(), BackgroundColor::Black);
    assert_eq!((out.width(), out.height()), (8, 10));
    assert_eq!(out.format(), PixelFormat::Rgba);
    let mut y: u32 = 0;
    while y < 10 {
        let mut x: u32 = 0;
        while x < 8 {
            if x >= 1 && x < 6 {
                assert_eq!(out.get_pixel(x, y), img.get_pixel(x - 1, y));
            } else {
                assert_eq!(out.get_pixel(x, y), Some(BLACK));
            }
            x += 1;
        }
        y += 1;
    }
}

#[test]
fn pad_of_wide_image_adds_bars_above_and_below() {
    let img = pattern(8, 4, PixelFormat::Rgba);
    let out = convert_aspect_ratio_pad(img.clone(), BackgroundColor::White);
    assert_eq!((out.width(), out.height()), (8, 10));
    let mut y: u32 = 0;
    while y < 10 {
        let mut x: u32 = 0;
        while x < 8 {
            if y >= 3 && y < 7 {
                assert_eq!(out.get_pixel(x, y), img.get_pixel(x, y - 3));
            } else {
                assert_eq!(out.get_pixel(x, y), Some(WHITE));
            }
            x += 1;
        }
        y += 1;
    }
}

#[test]
fn pad_replaces_and_does_not_blend() {
    let data: Vec<u8> = vec![10, 20, 30, 0, 40, 50, 60, 128];
    let img = RasterImage::from_raw(2, 1, PixelFormat::Rgba, data).unwrap();
    let out = convert_aspect_ratio_pad(img, BackgroundColor::White);
    assert_eq!((out.width(), out.height()), (2, 3));
    assert_eq!(out.get_pixel(0, 0), Some(WHITE));
    assert_eq!(out.get_pixel(0, 1), Some(Rgba { red: 10, green: 20, blue: 30, alpha: 0 }));
    assert_eq!(out.get_pixel(1, 1), Some(Rgba { red: 40, green: 50, blue: 60, alpha: 128 }));
    assert_eq!(out.get_pixel(1, 2), Some(WHITE));
}

#[test]
fn pad_of_opaque_image_agrees_with_the_image_crate() {
    let sizes: [(u32, u32); 5] = [(30, 10), (10, 30), (17, 13), (13, 17), (3, 1)];
    for &(w, h) in sizes.iter() {
        let img = opaque_pattern(w, h);
        let out = convert_aspect_ratio_pad(img.clone(), BackgroundColor::White);
        let mut canvas = image::RgbaImage::from_pixel(
            out.width(),
            out.height(),
            image::Rgba([255, 255, 255, 255]),
        );
        let top = image::RgbaImage::from_raw(w, h, img.into_raw()).unwrap();
        let x: u32 = (out.width() - w) / 2;
        let y: u32 = (out.height() - h) / 2;
        image::imageops::overlay(&mut canvas, &top, x.into(), y.into());
        assert_eq!(out.as_raw(), canvas.as_raw());
    }
}

#[test]
fn pad_500_by_1000_on_black() {
    let img = pattern(500, 1000, PixelFormat::Rgb);
    assert!(can_pad(&img));
    let out = transform(img.clone(), ConversionMode::Pad, BackgroundColor::Black);
    assert_eq!((out.width(), out.height()), (800, 1000));
    let mut y: u32 = 0;
    while y < 1000 {
        let mut x: u32 = 0;
        while x < 150 {
            assert_eq!(out.get_pixel(x, y), Some(BLACK));
            assert_eq!(out.get_pixel(650 + x, y), Some(BLACK));
            x += 1;
        }
        assert_eq!(out.get_pixel(150, y), img.get_pixel(0, y));
        assert_eq!(out.get_pixel(649, y), img.get_pixel(499, y));
        y += 7;
    }
    let flat = out.to_rgb8();
    assert_eq!(flat.get_pixel(0, 0), Some(BLACK));
    assert_eq!(flat.get_pixel(400, 500), img.get_pixel(250, 500));
}

#[test]
fn pad_of_degenerate_images_does_not_panic() {
    let out = convert_aspect_ratio_pad(pattern(1, 50, PixelFormat::Rgb), BackgroundColor::Black);
    assert_eq!((out.width(), out.height()), (40, 50));
    let out = convert_aspect_ratio_pad(pattern(50, 1, PixelFormat::Rgb), BackgroundColor::Black);
    assert_eq!((out.width(), out.height()), (50, 63));
    let out = convert_aspect_ratio_pad(pattern(0, 0, PixelFormat::Rgb), BackgroundColor::Black);
    assert_eq!((out.width(), out.height()), (0, 0));
    let out = convert_aspect_ratio_pad(pattern(0, 5, PixelFormat::Rgb), BackgroundColor::White);
    assert_eq!((out.width(), out.height()), (4, 5));
    assert_eq!(out.get_pixel(3, 4), Some(WHITE));
    let out = convert_aspect_ratio_pad(pattern(4, 0, PixelFormat::Rgb), BackgroundColor::White);
    assert_eq!((out.width(), out.height()), (4, 5));
    assert_eq!(out.get_pixel(0, 0), Some(WHITE));
}

#[test]
fn can_pad_turns_down_a_canvas_that_cannot_exist() {
    let img = RasterImage::from_raw(u32::MAX, 0, PixelFormat::Rgb, Vec::new()).unwrap();
    assert!(!can_pad(&img));
    let img = RasterImage::from_raw(0, u32::MAX, PixelFormat::Rgb, Vec::new()).unwrap();
    assert!(!can_pad(&img));
    let img = RasterImage::from_raw(0, 0, PixelFormat::Rgb, Vec::new()).unwrap();
    assert!(can_pad(&img));
    assert!(can_pad(&pattern(3, 7, PixelFormat::Rgba)));
}

#[test]
fn transform_follows_the_mode() {
    let img = pattern(20, 10, PixelFormat::Rgb);
    let cropped = transform(img.clone(), ConversionMode::Crop, BackgroundColor::Black);
    assert_eq!(cropped, convert_aspect_ratio_crop(img.clone()));
    assert_eq!((cropped.width(), cropped.height()), (8, 10));
    let padded = transform(img.clone(), ConversionMode::Pad, BackgroundColor::Black);
    assert_eq!(padded, convert_aspect_ratio_pad(img, BackgroundColor::Black));
    assert_eq!((padded.width(), padded.height()), (20, 25));
}
