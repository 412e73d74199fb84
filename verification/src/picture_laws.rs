//! Which pictures are shown, how they are scaled, and under which names they are cached.

use crate::image_preview::{
    asked, buffer_len, cache_dir_in, cached_image, cached_images, decoded_for, decoded_whole, downscaled,
    encoded_png, fnv, gray_image, guessed_jpeg, hex, image_size, jpeg_image, jpeg_scaled, key_input,
    left_over, pixel_len, png_bytes, prepared_png, resized_image, rgb_image, shows_images, size_left, total_size,
    turned_image, upright, CacheEntry, EntryView, Eviction, JpegPixels, TerminalEnv, CHUNK, MAX_ALLOC,
    MAX_CACHE_BYTES,
};
use crate::sort::sorted;
use image::DynamicImage;
use vstd::arithmetic::power::pow;
use vstd::prelude::*;
use vstd::utf8::encode_utf8;

verus! {

// ------------------------------------------------------------ the terminal

/// A terminal shows pictures where a variable is set that kitty, Alacritty, Ghostty, WezTerm or
/// Konsole sets, whatever its names are.
pub proof fn variables_tell_of_pictures(env: TerminalEnv)
    ensures
        env.kitty_window_id ==> shows_images(env),
        env.alacritty_window_id ==> shows_images(env),
        env.ghostty_resources_dir ==> shows_images(env),
        env.wezterm_executable ==> shows_images(env),
        env.konsole_version ==> shows_images(env),
{
}

/// Without such a variable a terminal shows pictures where one of its two names is known.
pub proof fn names_tell_of_pictures(env: TerminalEnv)
    requires
        !env.kitty_window_id,
        !env.alacritty_window_id,
        !env.ghostty_resources_dir,
        !env.wezterm_executable,
        !env.konsole_version,
    ensures
        ({
            let by_term = env.term is Some && (env.term->0@ == "xterm-kitty"@ || env.term->0@
                == "xterm-ghostty"@ || env.term->0@ == "rio"@);
            let by_program = env.term_program is Some && (env.term_program->0@ == "kitty"@
                || env.term_program->0@ == "WezTerm"@ || env.term_program->0@ == "ghostty"@
                || env.term_program->0@ == "rio"@);
            shows_images(env) == (by_term || by_program)
        }),
{
}

// ------------------------------------------------------------ names in the cache

proof fn sixteen_step(k: nat)
    ensures
        pow(16, (k + 1) as nat) == 16 * pow(16, k),
        pow(16, k) > 0,
{
    reveal(pow);
    vstd::arithmetic::power::lemma_pow_positive(16, k);
}

proof fn digit_code(d: int)
    requires
        0 <= d < 10,
    ensures
        crate::text::digit_char(d) as u32 == 0x30 + d,
{
}

/// A hash is written with the hexadecimal digits that it has, in lower case.
pub proof fn hashes_are_written_in_hexadecimal(n: nat, digits: nat, i: int)
    requires
        0 <= i < digits,
    ensures
        hex(n, digits).len() == digits,
        ({
            let d = (n as int / pow(16, (digits - 1 - i) as nat)) % 16;
            hex(n, digits)[i] as u32 == if d < 10 {
                0x30 + d
            } else {
                0x61 + d - 10
            }
        }),
    decreases digits,
{
    crate::image_preview::hex_len(n, digits);
    let m = n / 16;
    let t = hex(m, (digits - 1) as nat);
    crate::image_preview::hex_len(m, (digits - 1) as nat);
    if i < digits - 1 {
        hashes_are_written_in_hexadecimal(m, (digits - 1) as nat, i);
        let k = (digits - 2 - i) as nat;
        sixteen_step(k);
        vstd::arithmetic::div_mod::lemma_div_denominator(n as int, 16, pow(16, k));
        assert(n as int / 16 == m as int);
        assert((digits - 1 - i) as nat == k + 1);
        assert(hex(n, digits)[i] == t[i]);
    } else {
        vstd::arithmetic::power::lemma_pow0(16);
        assert((digits - 1 - i) as nat == 0);
        assert(n as int / 1 == n as int);
        let d = (n % 16) as int;
        if d < 10 {
            digit_code(d);
        }
    }
}

/// The hash is FNV-1a of 64 bits: it starts with the offset, and each byte is mixed in and
/// multiplied by the prime.
pub proof fn every_byte_is_hashed(data: Seq<u8>, b: u8)
    ensures
        fnv(Seq::empty()) == 14695981039346656037u64,
        fnv(data.push(b)) == (fnv(data) ^ (b as u64)).wrapping_mul(1099511628211u64),
{
    assert(data.push(b).drop_last() == data);
}

proof fn last_bytes_equal(a: Seq<u8>, x: Seq<u8>, b: Seq<u8>, y: Seq<u8>)
    requires
        a + x == b + y,
        x.len() == y.len(),
    ensures
        a == b,
        x == y,
{
    assert((a + x).len() == (b + y).len());
    assert(a == (a + x).take(a.len() as int));
    assert(b == (b + y).take(b.len() as int));
    assert(x == (a + x).skip(a.len() as int));
    assert(y == (b + y).skip(b.len() as int));
}

/// What is hashed differs where the path, the time of the last change, the size or the box differs.
pub proof fn different_pictures_are_hashed_differently(
    path: Seq<char>,
    secs: u64,
    nanos: u32,
    len: u64,
    max_w: u32,
    max_h: u32,
    path2: Seq<char>,
    secs2: u64,
    nanos2: u32,
    len2: u64,
    max_w2: u32,
    max_h2: u32,
)
    requires
        key_input(path, secs, nanos, len, max_w, max_h) == key_input(
            path2,
            secs2,
            nanos2,
            len2,
            max_w2,
            max_h2,
        ),
    ensures
        path == path2,
        secs == secs2,
        nanos == nanos2,
        len == len2,
        max_w == max_w2,
        max_h == max_h2,
{
    vstd::bytes::lemma_auto_spec_u64_to_from_le_bytes();
    vstd::bytes::lemma_auto_spec_u32_to_from_le_bytes();
    let start = encode_utf8("sift-preview-v1"@);
    let a1 = start + encode_utf8(path);
    let b1 = start + encode_utf8(path2);
    let a2 = a1 + vstd::bytes::spec_u64_to_le_bytes(secs);
    let b2 = b1 + vstd::bytes::spec_u64_to_le_bytes(secs2);
    let a3 = a2 + vstd::bytes::spec_u32_to_le_bytes(nanos);
    let b3 = b2 + vstd::bytes::spec_u32_to_le_bytes(nanos2);
    let a4 = a3 + vstd::bytes::spec_u64_to_le_bytes(len);
    let b4 = b3 + vstd::bytes::spec_u64_to_le_bytes(len2);
    let a5 = a4 + vstd::bytes::spec_u32_to_le_bytes(max_w);
    let b5 = b4 + vstd::bytes::spec_u32_to_le_bytes(max_w2);
    last_bytes_equal(
        a5,
        vstd::bytes::spec_u32_to_le_bytes(max_h),
        b5,
        vstd::bytes::spec_u32_to_le_bytes(max_h2),
    );
    last_bytes_equal(
        a4,
        vstd::bytes::spec_u32_to_le_bytes(max_w),
        b4,
        vstd::bytes::spec_u32_to_le_bytes(max_w2),
    );
    last_bytes_equal(
        a3,
        vstd::bytes::spec_u64_to_le_bytes(len),
        b3,
        vstd::bytes::spec_u64_to_le_bytes(len2),
    );
    last_bytes_equal(
        a2,
        vstd::bytes::spec_u32_to_le_bytes(nanos),
        b2,
        vstd::bytes::spec_u32_to_le_bytes(nanos2),
    );
    last_bytes_equal(
        a1,
        vstd::bytes::spec_u64_to_le_bytes(secs),
        b1,
        vstd::bytes::spec_u64_to_le_bytes(secs2),
    );
    assert(encode_utf8(path) == a1.skip(start.len() as int));
    assert(encode_utf8(path2) == b1.skip(start.len() as int));
    vstd::utf8::encode_utf8_decode_utf8(path);
    vstd::utf8::encode_utf8_decode_utf8(path2);
}

/// The bytes that are hashed: a fixed start, the path, the time, the size and the box.
pub proof fn the_hashed_bytes_are_laid_out(
    path: Seq<char>,
    secs: u64,
    nanos: u32,
    len: u64,
    max_w: u32,
    max_h: u32,
)
    ensures
        ({
            let k = key_input(path, secs, nanos, len, max_w, max_h);
            let n = 15 + encode_utf8(path).len() as int;
            &&& k.len() == n + 28
            &&& k.take(15) == encode_utf8("sift-preview-v1"@)
            &&& k.subrange(15, n) == encode_utf8(path)
            &&& k.subrange(n, n + 8) == vstd::bytes::spec_u64_to_le_bytes(secs)
            &&& k.subrange(n + 8, n + 12) == vstd::bytes::spec_u32_to_le_bytes(nanos)
            &&& k.subrange(n + 12, n + 20) == vstd::bytes::spec_u64_to_le_bytes(len)
            &&& k.subrange(n + 20, n + 24) == vstd::bytes::spec_u32_to_le_bytes(max_w)
            &&& k.subrange(n + 24, n + 28) == vstd::bytes::spec_u32_to_le_bytes(max_h)
        }),
{
    vstd::bytes::lemma_auto_spec_u64_to_from_le_bytes();
    vstd::bytes::lemma_auto_spec_u32_to_from_le_bytes();
    reveal_strlit("sift-preview-v1");
    assert(vstd::utf8::is_ascii_chars("sift-preview-v1"@));
    vstd::utf8::is_ascii_chars_encode_utf8("sift-preview-v1"@);
    assert(encode_utf8("sift-preview-v1"@).len() == 15);
}

/// The cache lies below the directory for caches where that is known by an absolute path, and
/// otherwise below the home directory.
pub proof fn the_cache_has_its_directory(dir: Seq<char>, home: Seq<char>)
    requires
        dir.len() > 0,
        dir.last() != '/',
        home.len() > 0,
        home.last() != '/',
    ensures
        dir[0] == '/' ==> cache_dir_in(Some(dir), Some(home)) == Some(dir + "/sift/preview"@),
        dir[0] == '/' ==> cache_dir_in(Some(dir), None) == Some(dir + "/sift/preview"@),
        dir[0] != '/' ==> cache_dir_in(Some(dir), Some(home)) == Some(
            home + "/.cache/sift/preview"@,
        ),
        dir[0] != '/' ==> cache_dir_in(Some(dir), None) is None,
        cache_dir_in(None, Some(home)) == Some(home + "/.cache/sift/preview"@),
        cache_dir_in(None, None) is None,
{
    reveal_strlit("/sift/preview");
    reveal_strlit("/.cache/sift/preview");
    reveal_strlit(".cache");
    reveal_strlit("sift");
    reveal_strlit("preview");
    let x = dir.push('/') + "sift"@;
    assert(x.last() == 't');
    assert(x.push('/') + "preview"@ == dir + "/sift/preview"@);
    let h = home.push('/') + ".cache"@;
    assert(h.last() == 'e');
    let hs = h.push('/') + "sift"@;
    assert(hs.last() == 't');
    assert(hs.push('/') + "preview"@ == home + "/.cache/sift/preview"@);
}

// ------------------------------------------------------------ making room

/// The files of the cache are those named with the extension `png`.
pub proof fn cached_pictures_are_told_by_their_names(dir: Seq<char>, stem: Seq<char>)
    requires
        !stem.contains('/'),
        stem.len() > 0,
    ensures
        cached_image(dir + seq!['/'] + (stem + seq!['.', 'p', 'n', 'g'])),
        cached_image(dir + seq!['/'] + (stem + seq!['.', 't', 'm', 'p'])) == false,
{
    reveal_strlit("png");
    let png = seq!['p', 'n', 'g'];
    let tmp = seq!['t', 'm', 'p'];
    assert("png"@ == png);
    assert(stem + seq!['.'] + png == stem + seq!['.', 'p', 'n', 'g']);
    assert(stem + seq!['.'] + tmp == stem + seq!['.', 't', 'm', 'p']);
    assert((stem + seq!['.'] + png).len() > 2);
    assert((stem + seq!['.'] + tmp).len() > 2);
    crate::paths::extension_follows_last_point(dir, stem, png);
    crate::paths::extension_follows_last_point(dir, stem, tmp);
    assert(tmp[0] != png[0]);
}

/// What the cache holds is the sum of the sizes of its pictures; other files do not count.
pub proof fn every_cached_picture_counts(files: Seq<EntryView>, e: EntryView)
    ensures
        total_size(Seq::empty()) == 0,
        cached_images(Seq::empty()).len() == 0,
        total_size(files) + e.size <= u64::MAX ==> total_size(files.push(e)) == total_size(files)
            + e.size,
        cached_image(e.path) ==> cached_images(files.push(e)) == cached_images(files).push(e),
        !cached_image(e.path) ==> cached_images(files.push(e)) == cached_images(files),
{
    reveal(Seq::filter);
    assert(files.push(e).drop_last() == files);
}

/// The pictures that may go stand in the order of their age, and none is lost or added.
pub proof fn the_oldest_stand_first(files: Seq<EntryView>, i: int, j: int)
    requires
        0 <= i <= j < files.len(),
    ensures
        sorted::<CacheEntry>(files).to_multiset() == files.to_multiset(),
        sorted::<CacheEntry>(files).len() == files.len(),
        sorted::<CacheEntry>(files)[i].changed <= sorted::<CacheEntry>(files)[j].changed,
{
    crate::sort::sorted_same_elements::<CacheEntry>(files);
    crate::sort::sorted_len::<CacheEntry>(files);
    crate::sort::sorted_in_order::<CacheEntry>(files);
    let all = sorted::<CacheEntry>(files);
    if i < j {
        assert(<CacheEntry as crate::sort::Ranked>::le(all[i], all[j]));
    }
}

/// While the cache holds more than it may, the first of the pictures that may go is the next one.
pub proof fn the_first_goes_next(e: Eviction)
    ensures
        e.total <= e.target ==> e.next_path() is None,
        e.candidates().len() == 0 ==> e.next_path() is None,
        e.total > e.target && e.candidates().len() > 0 ==> e.next_path() == Some(
            e.candidates()[0].path,
        ),
{
}

/// Pictures are removed only until enough room is there: where the first of them is enough, no other
/// goes.
pub proof fn no_more_is_removed_than_needed(
    first: EntryView,
    rest: Seq<EntryView>,
    total: u64,
    target: u64,
)
    requires
        first.size <= total,
    ensures
        total <= target ==> left_over(seq![first] + rest, total, target) == total,
        total > target && total - first.size <= target ==> left_over(
            seq![first] + rest,
            total,
            target,
        ) == total - first.size,
        total > target && total - first.size > target ==> left_over(
            seq![first] + rest,
            total,
            target,
        ) == left_over(rest, (total - first.size) as u64, target),
        size_left(total, first.size) == total - first.size,
{
    let all = seq![first] + rest;
    assert(all[0] == first);
    assert(all.drop_first() == rest);
    reveal_with_fuel(left_over, 2);
}

// ------------------------------------------------------------ scaling

/// A picture that fits its box is left as it is; another one is made smaller to fit.
pub proof fn only_large_pictures_are_scaled(img: DynamicImage, max_w: u32, max_h: u32)
    ensures
        image_size(img).0 <= max_w && image_size(img).1 <= max_h ==> downscaled(img, max_w, max_h)
            == img,
        image_size(img).0 > max_w || image_size(img).1 > max_h ==> downscaled(img, max_w, max_h)
            == resized_image(img, max_w, max_h),
{
}

/// What is sent and cached of a picture is the encoding of the scaled picture; a picture without
/// pixels gives nothing, nor does one that was not decoded.
pub proof fn pictures_with_pixels_are_encoded(img: DynamicImage, max_w: u32, max_h: u32)
    ensures
        prepared_png(None, max_w, max_h) is None,
        ({
            let small = if image_size(img).0 <= max_w && image_size(img).1 <= max_h {
                img
            } else {
                resized_image(img, max_w, max_h)
            };
            &&& image_size(small).0 > 0 && image_size(small).1 > 0 ==> prepared_png(
                Some(img),
                max_w,
                max_h,
            ) == encoded_png(small)
            &&& image_size(small).0 == 0 || image_size(small).1 == 0 ==> prepared_png(
                Some(img),
                max_w,
                max_h,
            ) is None
        }),
{
}

/// A picture is encoded where its buffer holds its pixels and nothing more.
pub proof fn whole_pictures_are_encoded(img: DynamicImage)
    ensures
        buffer_len(img) == image_size(img).0 * image_size(img).1 * pixel_len(img) ==> encoded_png(img)
            == png_bytes(img),
        buffer_len(img) != image_size(img).0 * image_size(img).1 * pixel_len(img) ==> encoded_png(img)
            is None,
{
}

/// JPEG pixels in colours or in grey become a picture, turned upright, as long as it takes no more
/// than 512 MiB; other layouts do not.
pub proof fn jpeg_pixels_become_pictures(pixels: Seq<u8>, w: u16, h: u16, turn: u8)
    ensures
        w * h <= 134217728 && rgb_image(w as u32, h as u32, pixels) is Some ==> jpeg_image(
            Some((pixels, w, h, JpegPixels::Rgb)),
            turn,
        ) == Some(turned_image(rgb_image(w as u32, h as u32, pixels)->0, turn)),
        w * h <= 134217728 && gray_image(w as u32, h as u32, pixels) is Some ==> jpeg_image(
            Some((pixels, w, h, JpegPixels::Luma)),
            turn,
        ) == Some(turned_image(gray_image(w as u32, h as u32, pixels)->0, turn)),
        w * h > 134217728 ==> jpeg_image(Some((pixels, w, h, JpegPixels::Rgb)), turn) is None,
        w * h > 134217728 ==> jpeg_image(Some((pixels, w, h, JpegPixels::Luma)), turn) is None,
        jpeg_image(Some((pixels, w, h, JpegPixels::Other)), turn) is None,
        jpeg_image(None, turn) is None,
{
}

/// A picture of another format than JPEG is decoded whole, and turned upright. One of JPEG format is
/// decoded whole only where it cannot be scaled while it is decoded. What is no picture gives none.
pub proof fn pictures_are_decoded_by_their_format(
    bytes: Seq<u8>,
    max_w: u32,
    max_h: u32,
    img: Option<DynamicImage>,
    decoded: DynamicImage,
    turn: u8,
)
    ensures
        guessed_jpeg(bytes) is None ==> (decoded_for(bytes, max_w, max_h, img) <==> img is None),
        guessed_jpeg(bytes) == Some(false) ==> (decoded_for(bytes, max_w, max_h, img)
            <==> decoded_whole(bytes, img)),
        guessed_jpeg(bytes) == Some(true) && decoded_for(bytes, max_w, max_h, img) && !decoded_whole(
            bytes,
            img,
        ) ==> jpeg_scaled(bytes, max_w, max_h, img),
        guessed_jpeg(bytes) == Some(true) && decoded_for(bytes, max_w, max_h, img) && !jpeg_scaled(
            bytes,
            max_w,
            max_h,
            img,
        ) ==> jpeg_scaled(bytes, max_w, max_h, None) && decoded_whole(bytes, img),
        upright(Some((decoded, turn))) == Some(turned_image(decoded, turn)),
        upright(None) is None,
{
}

/// The limits for pictures.
pub proof fn pictures_have_their_limits(n: u32)
    ensures
        CHUNK == 4096,
        MAX_ALLOC == 512 * 1024 * 1024,
        MAX_CACHE_BYTES == 256 * 1024 * 1024,
        n <= 65535 ==> asked(n) == n,
        n > 65535 ==> asked(n) == 65535,
{
}

} // verus!
