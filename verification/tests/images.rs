use base64::Engine;
use image::DynamicImage;
use sift::image_preview::{
    cache_dir, cache_key, cached_path, decode, decode_generic, decode_jpeg_scaled,
    delete_all_payload, downscale, encode_png, fnv1a, jpeg_image_of, kitty_supported, prepare,
    prepare_cached, prepare_picture, show_sequence, temporary_path, transmit_png, CacheEntry,
    Eviction, JpegPixels, Picture, PrepareStep, TerminalEnv, CHUNK,
};
use sift::layout::Rect;

/// The box of a preview of 40 by 20 cells, of 10 by 20 pixels each.
const MAX_W: u32 = 400;
const MAX_H: u32 = 400;

fn bytes_of(img: DynamicImage, format: image::ImageFormat) -> Vec<u8> {
    let mut buf = std::io::Cursor::new(Vec::new());
    img.write_to(&mut buf, format).unwrap();
    buf.into_inner()
}

/// A picture as it comes from a file.
fn picture(img: DynamicImage) -> Picture {
    decode(&bytes_of(img, image::ImageFormat::Png), MAX_W, MAX_H).expect("a picture")
}

/// The PNG bytes that a sequence for the terminal carries.
fn extract_png(transmit: &[u8]) -> Vec<u8> {
    let s = String::from_utf8_lossy(transmit);
    let mut b64 = String::new();
    for frame in s.split("\x1b_G") {
        if let Some(semi) = frame.find(';') {
            let payload = frame[semi + 1..].split("\x1b\\").next().unwrap_or("");
            b64.push_str(payload);
        }
    }
    base64::engine::general_purpose::STANDARD
        .decode(b64.as_bytes())
        .unwrap_or_default()
}

#[test]
fn delete_all_is_well_formed() {
    let d = delete_all_payload();
    assert!(d.starts_with(b"\x1b_G"));
    assert!(d.ends_with(b"\x1b\\"));
    assert!(d.windows(7).any(|w| w == b"a=d,d=A"));
}

#[test]
fn prepare_rejects_zero_area() {
    assert!(matches!(prepare_cached(0, 10, None), PrepareStep::Reject));
    assert!(matches!(prepare_cached(10, 0, Some(vec![1])), PrepareStep::Reject));
}

#[test]
fn prepare_fails_gracefully_on_missing_or_non_image() {
    // nothing cached, and no bytes or no picture in the file
    assert!(matches!(prepare_cached(40, 20, None), PrepareStep::ReadSource));
    assert!(prepare(b"", MAX_W, MAX_H).is_none());
    assert!(prepare(b"not a picture", MAX_W, MAX_H).is_none());
    assert!(prepare(b"\x89PNG\r\n\x1a\n", MAX_W, MAX_H).is_none());
    assert!(prepare(b"\xff\xd8\xff\xe0 broken", MAX_W, MAX_H).is_none());
}

#[test]
fn transmit_png_uses_cursor_placement_mode() {
    let img = DynamicImage::ImageRgba8(image::RgbaImage::from_pixel(
        2,
        2,
        image::Rgba([255, 0, 0, 255]),
    ));
    let png = encode_png(picture(img)).expect("a PNG");
    let transmit = transmit_png(&png);
    let s = String::from_utf8_lossy(&transmit);
    assert!(s.contains("a=T"));
    assert!(s.contains("z=-1"));
    assert!(s.contains("C=1"));
    assert!(s.contains("f=100"), "{s}");
    assert!(!s.contains("f=24") && !s.contains("f=32"));
    assert!(!s.contains("s=") && !s.contains("v="), "{s}");
    assert!(!s.contains("U=1"));
    assert!(transmit.ends_with(b"\x1b\\"));
    let decoded = extract_png(&transmit);
    assert!(decoded.starts_with(&[0x89, b'P', b'N', b'G']));
    assert_eq!(decoded, png);
}

#[test]
fn prepare_end_to_end_real_png() {
    let img = image::RgbImage::from_fn(100, 50, |x, y| {
        image::Rgb([(x % 256) as u8, (y % 256) as u8, 128])
    });
    let file = bytes_of(DynamicImage::ImageRgb8(img.clone()), image::ImageFormat::Png);
    let (prepared, png) = prepare(&file, MAX_W, MAX_H).expect("a picture");
    assert!(prepared.transmit.starts_with(b"\x1b_G"));
    assert!(prepared.transmit.ends_with(b"\x1b\\"));
    let s = String::from_utf8_lossy(&prepared.transmit);
    assert!(s.contains("a=T") && s.contains("z=-1"), "{s}");
    assert!(s.contains("f=100"), "{s}");
    // what fits is not scaled
    assert_eq!(image::load_from_memory(&png).unwrap().to_rgb8(), img);
}

#[test]
fn prepare_downscales_huge_image() {
    let img = image::RgbImage::from_fn(3000, 2000, |x, y| {
        image::Rgb([(x % 256) as u8, (y % 256) as u8, 0])
    });
    let file = bytes_of(DynamicImage::ImageRgb8(img), image::ImageFormat::Png);
    let (prepared, _) = prepare(&file, MAX_W, MAX_H).expect("a picture");
    let png = extract_png(&prepared.transmit);
    let decoded = image::load_from_memory(&png).expect("a PNG");
    let (w, h) = (decoded.width(), decoded.height());
    assert!(w <= MAX_W && h <= MAX_H, "{w}x{h}");
    assert!(w < 3000 && h < 2000, "{w}x{h}");
    assert_eq!((w, h), (400, 267));
}

#[test]
fn prepare_downscales_huge_jpeg() {
    let img = image::RgbImage::from_fn(2048, 1536, |x, y| {
        image::Rgb([(x % 256) as u8, (y % 256) as u8, 100])
    });
    let file = bytes_of(DynamicImage::ImageRgb8(img), image::ImageFormat::Jpeg);
    let (prepared, _) = prepare(&file, MAX_W, MAX_H).expect("a picture");
    let png = extract_png(&prepared.transmit);
    let decoded = image::load_from_memory(&png).expect("a PNG");
    let (w, h) = (decoded.width(), decoded.height());
    assert!(w <= MAX_W && h <= MAX_H, "{w}x{h}");
    assert!(w < 2048 && h < 1536, "{w}x{h}");
}

#[test]
fn jpegs_are_scaled_while_they_are_decoded() {
    let img = image::RgbImage::from_pixel(2048, 1536, image::Rgb([200, 100, 50]));
    let file = bytes_of(DynamicImage::ImageRgb8(img), image::ImageFormat::Jpeg);
    let small = decode_jpeg_scaled(&file, MAX_W, MAX_H).unwrap();
    let (w, h) = small.size();
    assert!(w < 2048 && w >= 400 && h < 1536, "{w}x{h}");
    let gray = image::GrayImage::from_pixel(64, 32, image::Luma([77]));
    let file = bytes_of(DynamicImage::ImageLuma8(gray), image::ImageFormat::Jpeg);
    let whole = decode_jpeg_scaled(&file, 1 << 20, 1 << 20).unwrap();
    assert_eq!(whole.size(), (64, 32));
    let png = image::load_from_memory(&encode_png(whole).unwrap()).unwrap();
    assert_eq!(png.to_luma8().get_pixel(3, 3)[0], 77);
    assert!(decode_jpeg_scaled(b"no", MAX_W, MAX_H).is_none());
}

#[test]
fn exif_orientation_is_applied() {
    let img = image::RgbImage::from_pixel(64, 32, image::Rgb([1, 2, 3]));
    let file = bytes_of(DynamicImage::ImageRgb8(img), image::ImageFormat::Jpeg);
    // an EXIF segment that says: turned by a quarter
    let mut tiff: Vec<u8> = b"Exif\0\0MM\0*\0\0\0\x08\0\x01".to_vec();
    tiff.extend_from_slice(&[0x01, 0x12, 0, 3, 0, 0, 0, 1, 0, 6, 0, 0, 0, 0, 0, 0]);
    let mut turned = file[..2].to_vec();
    turned.extend_from_slice(&[0xff, 0xe1]);
    turned.extend_from_slice(&((tiff.len() + 2) as u16).to_be_bytes());
    turned.extend_from_slice(&tiff);
    turned.extend_from_slice(&file[2..]);
    let r = decode_jpeg_scaled(&turned, MAX_W, MAX_H).unwrap();
    assert_eq!(r.size(), (32, 64));
    assert_eq!(decode_generic(&turned).unwrap().size(), (32, 64));
    let (_, png) = prepare(&turned, MAX_W, MAX_H).unwrap();
    let shown = image::load_from_memory(&png).unwrap();
    assert_eq!((shown.width(), shown.height()), (32, 64));
}

#[test]
fn pictures_that_fit_are_left_alone() {
    let img = || picture(DynamicImage::new_rgb8(30, 10));
    assert_eq!(downscale(img(), 30, 10).size(), (30, 10));
    assert_eq!(downscale(img(), 15, 10).size(), (15, 5));
    assert_eq!(downscale(img(), 1, 1).size(), (1, 1));
}

#[test]
fn jpeg_pixels_are_at_least_as_many_as_the_size_asks_for() {
    let rgb = |n: usize, w, h| jpeg_image_of(Some((vec![7; n], w, h, JpegPixels::Rgb)), 1);
    let gray = |n: usize, w, h| jpeg_image_of(Some((vec![7; n], w, h, JpegPixels::Luma)), 1);
    assert_eq!(rgb(3, 1, 1).unwrap().size(), (1, 1));
    assert_eq!(rgb(4, 1, 1).unwrap().size(), (1, 1));
    assert!(rgb(2, 1, 1).is_none());
    assert_eq!(gray(6, 2, 3).unwrap().size(), (2, 3));
    assert_eq!(gray(12, 2, 3).unwrap().size(), (2, 3));
    assert!(gray(5, 2, 3).is_none());
    // what is too much is left out where the picture is scaled, and cannot be written as it is
    let (_, png) = prepare_picture(gray(20, 4, 4), 2, 2).unwrap();
    let shown = image::load_from_memory(&png).unwrap();
    assert_eq!((shown.width(), shown.height()), (2, 2));
    assert_eq!(shown.to_luma8().get_pixel(1, 1)[0], 7);
    assert!(encode_png(gray(12, 2, 3).unwrap()).is_none());
    for turn in 1..=8 {
        let turned = jpeg_image_of(Some((vec![7; 20], 2, 3, JpegPixels::Luma)), turn).unwrap();
        assert_eq!(turned.size(), if turn < 5 { (2, 3) } else { (3, 2) });
    }
    assert!(jpeg_image_of(Some((vec![7; 4], 1, 1, JpegPixels::Other)), 1).is_none());
    assert!(jpeg_image_of(None, 1).is_none());
    // a quarter turn
    let turned = jpeg_image_of(Some((vec![7; 6], 2, 3, JpegPixels::Luma)), 6).unwrap();
    assert_eq!(turned.size(), (3, 2));
    // without pixels there is no PNG
    assert!(encode_png(rgb(0, 0, 3).unwrap()).is_none());
    assert!(prepare_picture(rgb(0, 0, 3), 5, 5).is_none());
}

#[test]
fn prepared_pictures_fit_their_box() {
    assert!(prepare_picture(None, 5, 5).is_none());
    let img = picture(DynamicImage::new_rgb8(30, 10));
    let (prepared, png) = prepare_picture(Some(img), 15, 10).unwrap();
    assert_eq!(prepared.transmit, transmit_png(&png));
    let shown = image::load_from_memory(&png).unwrap();
    assert_eq!((shown.width(), shown.height()), (15, 5));
}

#[test]
fn pictures_of_sixteen_bits_are_encoded() {
    let img = image::ImageBuffer::from_pixel(3, 2, image::Rgba([1u16, 2, 3, 65535]));
    let png = encode_png(picture(DynamicImage::ImageRgba16(img.clone()))).unwrap();
    assert_eq!(image::load_from_memory(&png).unwrap().to_rgba16(), img);
}

#[test]
fn broken_pictures_are_no_pictures() {
    let img = image::RgbImage::from_fn(24, 16, |x, y| {
        image::Rgb([(x * 9) as u8, (y * 13) as u8, 99])
    });
    for format in [
        image::ImageFormat::Png,
        image::ImageFormat::Jpeg,
        image::ImageFormat::Gif,
        image::ImageFormat::Bmp,
        image::ImageFormat::Tiff,
    ] {
        let mut buf = std::io::Cursor::new(Vec::new());
        if DynamicImage::ImageRgb8(img.clone()).write_to(&mut buf, format).is_err() {
            continue;
        }
        let file = buf.into_inner();
        for cut in (0..file.len()).step_by(7) {
            prepare(&file[..cut], 10, 10);
        }
        for at in (0..file.len()).step_by(5) {
            let mut bytes = file.clone();
            bytes[at] ^= 0x5a;
            if let Some((_, png)) = prepare(&bytes, 10, 10) {
                let shown = image::load_from_memory(&png).unwrap();
                assert!(shown.width() <= 10 && shown.height() <= 10);
            }
        }
    }
}

#[test]
fn transmit_is_much_smaller_than_raw_pixels() {
    let img = image::RgbImage::from_fn(800, 600, |x, y| {
        image::Rgb([(x / 3) as u8, (y / 2) as u8, 128])
    });
    let raw = (800 * 600 * 3) as usize;
    let file = bytes_of(DynamicImage::ImageRgb8(img), image::ImageFormat::Png);
    let png = encode_png(decode(&file, 800, 600).unwrap()).unwrap();
    let transmit = transmit_png(&png);
    assert!(transmit.len() < raw / 3, "{} {raw}", transmit.len());
}

#[test]
fn transmission_is_exact() {
    assert_eq!(transmit_png(b""), b"");
    assert_eq!(transmit_png(b"abc"), b"\x1b_Gq=2,a=T,z=-1,C=1,f=100,m=0;YWJj\x1b\\");
    let data = vec![0u8; CHUNK * 3 / 4 + 1];
    let t = transmit_png(&data);
    let mut want: Vec<u8> = b"\x1b_Gq=2,a=T,z=-1,C=1,f=100,m=1;".to_vec();
    want.extend_from_slice(&vec![b'A'; CHUNK]);
    want.extend_from_slice(b"\x1b\\\x1b_Gm=0;AA==\x1b\\");
    assert_eq!(t, want);
    assert_eq!(extract_png(&t), data);
}

#[test]
fn show_sequence_wraps_transmit_with_cursor_ops() {
    let area = Rect { x: 10, y: 5, width: 30, height: 15 };
    let transmit = b"\x1b_G_TEST_TRANSMIT\x1b\\";
    let seq = show_sequence(area, transmit);
    assert!(seq.starts_with(b"\x1b7"));
    assert!(seq.ends_with(b"\x1b8"));
    assert!(seq.windows(7).any(|w| w == b"\x1b[6;11H"));
    assert!(seq.windows(7).any(|w| w == b"a=d,d=A"));
    assert!(seq.windows(transmit.len()).any(|w| w == transmit));
}

#[test]
fn cache_key_stable_and_dim_sensitive() {
    let k1 = cache_key("/d/a.png", 1, 2, 3, 100, 100);
    let k2 = cache_key("/d/a.png", 1, 2, 3, 100, 100);
    assert_eq!(k1, k2);
    let k3 = cache_key("/d/a.png", 1, 2, 3, 200, 100);
    assert_ne!(k1, k3);
    assert_eq!(k1.len(), 16);
    for other in [
        cache_key("/d/b.png", 1, 2, 3, 100, 100),
        cache_key("/d/a.png", 2, 2, 3, 100, 100),
        cache_key("/d/a.png", 1, 3, 3, 100, 100),
        cache_key("/d/a.png", 1, 2, 4, 100, 100),
        cache_key("/d/a.png", 1, 2, 3, 100, 200),
    ] {
        assert_ne!(k1, other);
    }
    let mut buf = b"sift-preview-v1/d/a.png".to_vec();
    buf.extend_from_slice(&1u64.to_le_bytes());
    buf.extend_from_slice(&2u32.to_le_bytes());
    buf.extend_from_slice(&3u64.to_le_bytes());
    buf.extend_from_slice(&100u32.to_le_bytes());
    buf.extend_from_slice(&100u32.to_le_bytes());
    assert_eq!(k1, format!("{:016x}", fnv1a(&buf)));
}

#[test]
fn hashes_are_known() {
    assert_eq!(fnv1a(b""), 0xcbf29ce484222325);
    assert_eq!(fnv1a(b"a"), 0xaf63dc4c8601ec8c);
    assert_eq!(fnv1a(b"foobar"), 0x85944171f73967e8);
}

#[test]
fn cache_files_have_their_names() {
    // what is written first has another name, in the same directory
    assert_eq!(cached_path("/c", "deadbeefdeadbeef"), "/c/deadbeefdeadbeef.png");
    assert_eq!(
        temporary_path("/c", "deadbeefdeadbeef", 4711),
        "/c/deadbeefdeadbeef.4711.tmp"
    );
}

#[test]
fn cache_is_below_the_cache_home() {
    let s = |v: &str| Some(v.to_string());
    assert_eq!(cache_dir(&s("/x"), &s("/h")), s("/x/sift/preview"));
    assert_eq!(cache_dir(&s("rel"), &s("/h")), s("/h/.cache/sift/preview"));
    assert_eq!(cache_dir(&None, &s("/h")), s("/h/.cache/sift/preview"));
    assert_eq!(cache_dir(&s("rel"), &None), None);
}

fn entry(path: &str, changed: i128) -> CacheEntry {
    CacheEntry { path: path.to_string(), size: 100, changed }
}

#[test]
fn evict_removes_oldest_when_over_limit() {
    let files = vec![
        entry("/c/ccc.png", 1020),
        entry("/c/aaa.png", 1000),
        entry("/c/key.7.tmp", 1),
        entry("/c/ddd.png", 1030),
        entry("/c/bbb.png", 1010),
    ];
    let mut remain: Vec<String> = files.iter().map(|f| f.path.clone()).collect();
    let mut e = Eviction::begin(files, 250);
    while let Some(path) = e.next() {
        remain.retain(|p| *p != path);
        e.removed(true);
    }
    remain.sort();
    assert_eq!(remain, ["/c/ccc.png", "/c/ddd.png", "/c/key.7.tmp"]);
}

#[test]
fn eviction_goes_on_where_a_file_stays() {
    let files = || vec![entry("a.png", 1), entry("b.png", 2), entry("c.png", 3)];
    let mut e = Eviction::begin(files(), 299);
    assert_eq!(e.next().as_deref(), Some("a.png"));
    e.removed(false);
    assert_eq!(e.next().as_deref(), Some("b.png"));
    e.removed(true);
    assert_eq!(e.next(), None);
    assert_eq!(e.total, 200);
    // nothing is removed up to the limit
    assert_eq!(Eviction::begin(files(), 300).next(), None);
}

#[test]
fn prepare_hits_disk_cache_on_second_call() {
    let img = image::RgbImage::from_fn(60, 40, |x, y| {
        image::Rgb([(x % 256) as u8, (y % 256) as u8, 9])
    });
    let file = bytes_of(DynamicImage::ImageRgb8(img), image::ImageFormat::Png);
    assert!(matches!(prepare_cached(40, 20, None), PrepareStep::ReadSource));
    assert!(matches!(prepare_cached(40, 20, Some(Vec::new())), PrepareStep::ReadSource));
    let (first, png) = prepare(&file, MAX_W, MAX_H).expect("a picture");
    match prepare_cached(40, 20, Some(png)) {
        PrepareStep::Ready(p) => assert_eq!(p.transmit, first.transmit),
        s => panic!("{s:?}"),
    }

    let other = image::RgbImage::from_pixel(5, 5, image::Rgb([0, 0, 255]));
    let other_png = encode_png(picture(DynamicImage::ImageRgb8(other))).unwrap();
    match prepare_cached(40, 20, Some(other_png.clone())) {
        PrepareStep::Ready(second) => {
            assert_eq!(second.transmit, transmit_png(&other_png));
            assert_ne!(second.transmit, first.transmit);
        }
        s => panic!("{s:?}"),
    }
}

fn bare() -> TerminalEnv {
    TerminalEnv {
        kitty_window_id: false,
        alacritty_window_id: false,
        ghostty_resources_dir: false,
        wezterm_executable: false,
        konsole_version: false,
        term: None,
        term_program: None,
    }
}

#[test]
fn terminals_are_told_by_their_environment() {
    assert!(!kitty_supported(&bare()));
    assert!(kitty_supported(&TerminalEnv { kitty_window_id: true, ..bare() }));
    assert!(kitty_supported(&TerminalEnv { konsole_version: true, ..bare() }));
    for (t, ok) in [("xterm-kitty", true), ("xterm-ghostty", true), ("rio", true), ("xterm", false)] {
        assert_eq!(kitty_supported(&TerminalEnv { term: Some(t.to_string()), ..bare() }), ok);
    }
    for (t, ok) in [("kitty", true), ("WezTerm", true), ("ghostty", true), ("rio", true), ("x", false)] {
        assert_eq!(
            kitty_supported(&TerminalEnv { term_program: Some(t.to_string()), ..bare() }),
            ok
        );
    }
}
