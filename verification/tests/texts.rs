use sift::paths::{
    extension_of, file_name_of, join_path_of, names_same_path, relative_to_of,
};
use sift::sort::sort;
use sift::image_preview::CacheEntry;
use sift::text::{
    decimal_of, is_ascii_digit, is_control, is_whitespace, join_strings, lex_at_most, lines_of,
    parse_number_of, signed_decimal_of, split_str, trim_str, utf8_len_of, utf8_width_of,
};
use std::path::Path;

const PATHS: [&str; 34] = [
    "", "/", ".", "..", "./", "./.", "/.", "/..", "a", "a/", "a/.", "a/..", "./a", "../a", "a/b",
    "a//b", "/a", "/a/", "/a/b", "/a//b/", "/a/./b", "//a", "/a/b.c", ".hidden", "a.", "a.b.c",
    "/x/.hidden", "x/..y", "x/.y.z", "...", "/var/tmp", "/var", "/var/tmp/.", "a/b/../c",
];

#[test]
fn paths_agree_with_std() {
    for p in PATHS {
        let std_path = Path::new(p);
        assert_eq!(
            file_name_of(p),
            std_path.file_name().map(|n| n.to_str().unwrap().to_string()),
            "file name of {p:?}"
        );
        assert_eq!(
            extension_of(p),
            std_path.extension().map(|n| n.to_str().unwrap().to_string()),
            "extension of {p:?}"
        );
        for q in PATHS {
            assert_eq!(
                names_same_path(p, q),
                std_path == Path::new(q),
                "{p:?} and {q:?}"
            );
            assert_eq!(
                relative_to_of(p, q),
                std_path
                    .strip_prefix(q)
                    .ok()
                    .map(|r| r.to_str().unwrap().to_string()),
                "{p:?} from {q:?}"
            );
            assert_eq!(
                join_path_of(p, q),
                std_path.join(q).to_str().unwrap(),
                "{p:?} and then {q:?}"
            );
        }
    }
}

#[test]
fn character_classes_agree_with_std() {
    for v in 0..0x110000u32 {
        if let Some(c) = char::from_u32(v) {
            assert_eq!(is_control(c), c.is_control(), "{v:x}");
            assert_eq!(is_whitespace(c), c.is_whitespace(), "{v:x}");
            assert_eq!(is_ascii_digit(c), c.is_ascii_digit(), "{v:x}");
            assert_eq!(utf8_width_of(c), c.len_utf8(), "{v:x}");
        }
    }
}

#[test]
fn texts_agree_with_std() {
    let samples = [
        "", " ", "a", " a b ", "\u{3000}x\n", "a\nb", "a\r\nb\r\n", "\n", "\r\n", "a\r", "a\n\nb\n",
        "中文 搜索\t", "x,y,,z,", ",",
    ];
    for s in samples {
        assert_eq!(trim_str(s), s.trim(), "{s:?}");
        assert_eq!(
            lines_of(s),
            s.lines().map(|l| l.to_string()).collect::<Vec<String>>(),
            "{s:?}"
        );
        let parts: Vec<String> = s.split(',').map(|l| l.to_string()).collect();
        assert_eq!(split_str(s, ','), parts, "{s:?}");
        assert_eq!(join_strings(&parts, ","), s);
        let chars: Vec<char> = s.chars().collect();
        assert_eq!(utf8_len_of(&chars), s.len() as u128);
        for t in samples {
            assert_eq!(lex_at_most(s, t), s <= t, "{s:?} {t:?}");
        }
    }
}

#[test]
fn numbers_agree_with_std() {
    for n in [0u64, 1, 9, 10, 123, 65536, u64::MAX - 1, u64::MAX] {
        assert_eq!(decimal_of(n), n.to_string());
    }
    for n in [0i64, -1, 42, -128, i64::MIN, i64::MAX] {
        assert_eq!(signed_decimal_of(n), n.to_string());
    }
    for s in [
        "", "0", "+", "+5", "-5", "007", "12a", "18446744073709551615", "18446744073709551616",
        "99999999999999999999999999",
    ] {
        let chars: Vec<char> = s.chars().collect();
        assert_eq!(parse_number_of(&chars), s.parse::<u64>().ok(), "{s:?}");
    }
}

#[test]
fn sorting_is_stable() {
    let entry = |path: &str, changed: i128| CacheEntry {
        path: path.to_string(),
        size: 1,
        changed,
    };
    let sorted = sort(vec![
        entry("a", 3),
        entry("b", 1),
        entry("c", 3),
        entry("d", 2),
        entry("e", 1),
    ]);
    let order: Vec<String> = sorted.into_iter().map(|e| e.path).collect();
    assert_eq!(order, ["b", "e", "d", "a", "c"]);
}
