use sift::ui::move_cursor_vertical;
use sift::wrap::{
    collapsed_input_display, columns_of, cursor_line_col, decoded_single_line,
    input_cursor_line_col, truncate_width, truncate_width_with, wrap_by_width, wrap_input,
    wrap_lines,
};

#[test]
fn vertical_cursor_move_real_newline() {
    assert_eq!(move_cursor_vertical("abc\ndef", 4, 80, true, -1), 0);
    assert_eq!(move_cursor_vertical("abc\ndef", 0, 80, true, 1), 4);
    assert_eq!(move_cursor_vertical("abc\ndef", 0, 80, true, -1), 0);
    assert_eq!(move_cursor_vertical("abc\ndef", 6, 80, true, 1), 6);
}

#[test]
fn vertical_cursor_move_keeps_the_column_of_lines_that_fit() {
    let text = "abcdef\nxy\n\npqrst";
    let starts = [0usize, 7, 10, 11];
    let lens = [6usize, 2, 0, 5];
    for cursor in 0..=text.len() {
        let line = (0..4).rev().find(|&l| starts[l] <= cursor).unwrap();
        let col = cursor - starts[line];
        for delta in -5isize..=5 {
            let t = (line as isize + delta).clamp(0, 3) as usize;
            let want = starts[t] + col.min(lens[t]);
            for width in [6, 7, 80] {
                assert_eq!(move_cursor_vertical(text, cursor, width, false, delta), want);
            }
        }
        assert_eq!(move_cursor_vertical(text, cursor, 6, false, 0), cursor);
    }
}

#[test]
fn vertical_cursor_move_takes_the_closest_place() {
    // a wide character stands on two columns: from the second of them, its start is closest
    assert_eq!(move_cursor_vertical("a搜b\nabcd", 6, 80, false, -1), 1);
    assert_eq!(move_cursor_vertical("a搜b\nabcd", 7, 80, false, -1), 2);
    assert_eq!(move_cursor_vertical("a搜b\nabcd", 2, 80, false, 1), 7);
}

#[test]
fn vertical_cursor_move_wrapped_keeps_column() {
    assert_eq!(move_cursor_vertical("abcdef", 5, 3, false, -1), 2);
    assert_eq!(move_cursor_vertical("abcdef", 1, 3, false, 1), 4);
}

#[test]
fn vertical_cursor_move_decoded_escape() {
    assert_eq!(move_cursor_vertical("a\\nb", 3, 80, true, -1), 0);
    assert_eq!(move_cursor_vertical("a\\nb", 0, 80, true, 1), 3);
}

#[test]
fn vertical_cursor_move_lands_on_the_row() {
    for text in ["abcdef", "abcdefgh", "ab\ncdef\n", "中文搜索ab", "a\\nb\\tcd\\xy"] {
        for decode in [false, true] {
            let n = text.chars().count();
            for cursor in 0..=n {
                for width in [3usize, 4, 80] {
                    let rows = wrap_input(text, width, decode).len();
                    let (row, _) = input_cursor_line_col(text, cursor, width, decode);
                    for delta in [-2isize, -1, 1, 2] {
                        let to = move_cursor_vertical(text, cursor, width, decode, delta);
                        let (now, _) = input_cursor_line_col(text, to, width, decode);
                        let want = (row as isize + delta).clamp(0, rows as isize - 1);
                        assert_eq!(now as isize, want, "{text:?} {cursor} {width} {delta}");
                    }
                }
            }
        }
    }
    // the start of a wrapped row is a place on that row
    assert_eq!(move_cursor_vertical("abcdef", 0, 3, false, 1), 3);
    assert_eq!(move_cursor_vertical("abcdef", 6, 3, false, -1), 2);
    assert_eq!(move_cursor_vertical("abc", 1, 3, false, isize::MIN), 1);
    assert_eq!(move_cursor_vertical("a\nb\nc", 0, 3, false, isize::MAX), 4);
}

#[test]
fn wrap_by_width_ascii_and_wide() {
    assert_eq!(wrap_by_width("", 10), vec![""]);
    assert_eq!(wrap_by_width("abcdef", 3), vec!["abc", "def"]);
    assert_eq!(wrap_by_width("abcdefg", 3), vec!["abc", "def", "g"]);
    assert_eq!(wrap_by_width("中文搜索", 3), vec!["中", "文", "搜", "索"]);
    assert_eq!(wrap_by_width("中文搜索", 4), vec!["中文", "搜索"]);
    assert_eq!(wrap_by_width("ab中文", 4), vec!["ab中", "文"]);
    assert_eq!(wrap_by_width("ab", 0), vec!["a", "b"]);
}

#[test]
fn cursor_line_col_tracks_wrap() {
    assert_eq!(cursor_line_col("abcdef", 0, 3), (0, 0));
    assert_eq!(cursor_line_col("abcdef", 3, 3), (1, 0));
    assert_eq!(cursor_line_col("abcdef", 6, 3), (1, 3));
    assert_eq!(cursor_line_col("中文搜索", 2, 4), (1, 0));
    assert_eq!(cursor_line_col("中文搜索", 4, 4), (1, 4));
}

#[test]
fn cursor_line_col_handles_newline() {
    assert_eq!(cursor_line_col("ab\ncd", 0, 10), (0, 0));
    assert_eq!(cursor_line_col("ab\ncd", 2, 10), (0, 2));
    assert_eq!(cursor_line_col("ab\ncd", 3, 10), (1, 0));
    assert_eq!(cursor_line_col("ab\ncd", 5, 10), (1, 2));
    assert_eq!(cursor_line_col("ab\ncdef", 5, 3), (1, 2));
}

#[test]
fn wrap_input_splits_newlines_and_decodes() {
    assert_eq!(wrap_input("ab\ncd", 10, false), vec!["ab", "cd"]);
    assert_eq!(wrap_input("ab\\ncd", 10, true), vec!["ab", "cd"]);
    assert_eq!(wrap_input("ab\\ncd", 20, false), vec!["ab\\ncd"]);
    assert_eq!(wrap_input("abcdef\nxy", 3, false), vec!["abc", "def", "xy"]);
    assert_eq!(wrap_input("", 10, true), vec![""]);
    assert_eq!(wrap_input("ab\n", 10, true), vec!["ab", ""]);
}

#[test]
fn input_cursor_line_col_decodes_escapes() {
    assert_eq!(input_cursor_line_col("ab\\ncd", 0, 10, true), (0, 0));
    assert_eq!(input_cursor_line_col("ab\\ncd", 2, 10, true), (0, 2));
    assert_eq!(input_cursor_line_col("ab\\ncd", 4, 10, true), (1, 0));
    assert_eq!(input_cursor_line_col("ab\\ncd", 6, 10, true), (1, 2));
    assert_eq!(input_cursor_line_col("ab\ncd", 3, 10, true), (1, 0));
    assert_eq!(input_cursor_line_col("abcdef", 3, 3, false), (1, 0));
}

#[test]
fn decoded_single_line_shows_return_symbol() {
    assert_eq!(decoded_single_line("a\nb"), "a⏎b");
    assert_eq!(decoded_single_line("a\\nb"), "a⏎b");
    assert_eq!(decoded_single_line("a\tb"), "a\u{FFFD}b");
    assert_eq!(decoded_single_line("a\u{1b}b"), "a\u{FFFD}b");
    assert_eq!(decoded_single_line("plain"), "plain");
}

#[test]
fn truncation_leaves_room_for_the_mark() {
    assert_eq!(truncate_width("abcdef", 6), "abcdef");
    assert_eq!(truncate_width("abcdef", 5), "abcd…");
    assert_eq!(truncate_width("abcdef", 1), "…");
    assert_eq!(truncate_width("中文搜索", 6), "中文…");
    assert_eq!(truncate_width_with("abcdef", 5, " ..."), "a ...");
    assert_eq!(truncate_width_with("abcdef", 3, " ..."), " ...");
}

#[test]
fn collapsed_input_shows_text_and_cursor() {
    assert_eq!(collapsed_input_display("foo\\nbar", 5, 80), ("foo⏎bar".to_string(), 4));
    assert_eq!(collapsed_input_display("中a", 1, 80), ("中a".to_string(), 2));
    assert_eq!(collapsed_input_display("abcdefghij", 10, 8), ("abc ... ".to_string(), 8));
    assert_eq!(collapsed_input_display("ab", 99, 8), ("ab".to_string(), 2));
}

#[test]
fn widths_come_from_the_tables() {
    assert_eq!(columns_of('a'), 1);
    assert_eq!(columns_of('中'), 2);
    assert_eq!(columns_of('\u{1b}'), 0);
    assert_eq!(columns_of('\u{301}'), 0);
    assert_eq!(columns_of('\u{17D8}'), 3);
    for v in 0..0x110000u32 {
        if let Some(c) = char::from_u32(v) {
            let w = unicode_width::UnicodeWidthChar::width(c);
            assert_eq!(w.is_none(), c.is_control());
            assert_eq!(columns_of(c), w.unwrap_or(0));
            assert!(columns_of(c) <= 3);
        }
    }
    assert_eq!(wrap_lines("", 10), 1);
    assert_eq!(wrap_lines("中文", 3), 2);
}
